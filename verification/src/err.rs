//! Failures of loading a model.

use vstd::prelude::*;
use crate::text::push_str;

verus! {

/// Why a model could not be loaded. A failure of reading or of parsing is
/// held as the text that it was reported with.
#[derive(Debug)]
pub enum SlabErr {
    /// A description.
    Msg(String),
    /// A failure of reading.
    IO(String),
    /// The failures of several definitions, each of which failed on its own.
    List(Vec<Box<SlabErr>>),
    /// A failure of parsing.
    Chumsky(String),
}

/// The texts of the failures of `list` from position `i` on, one after the
/// other.
pub open spec fn list_text(list: Vec<Box<SlabErr>>, i: int) -> Seq<char>
    decreases list, list.len() - i,
{
    if 0 <= i < list.len() {
        text_of(*list[i]) + list_text(list, i + 1)
    } else {
        Seq::empty()
    }
}

/// The text that a failure is shown as: its description or the text it was
/// reported with; for a list, the texts of its failures one after the other,
/// with nothing between them.
pub open spec fn text_of(e: SlabErr) -> Seq<char>
    decreases e,
{
    match e {
        SlabErr::Msg(s) => s@,
        SlabErr::IO(s) => s@,
        SlabErr::List(l) => list_text(l, 0),
        SlabErr::Chumsky(s) => s@,
    }
}

impl SlabErr {
    /// A failure with the description `s`.
    pub fn msg(s: &str) -> (e: Self)
        ensures
            e matches SlabErr::Msg(t) && t@ == s@,
            text_of(e) == s@,
    {
        SlabErr::Msg(s.to_owned())
    }

    /// Appends the text of the failure to `out`.
    fn write(&self, out: &mut String)
        ensures
            final(out)@ == old(out)@ + text_of(*self),
        decreases self,
    {
        match self {
            SlabErr::Msg(s) => push_str(out, s.as_str()),
            SlabErr::IO(s) => push_str(out, s.as_str()),
            SlabErr::Chumsky(s) => push_str(out, s.as_str()),
            SlabErr::List(l) => Self::write_list(l, 0, out),
        }
    }

    /// Appends the texts of the failures of `list` from position `i` on to
    /// `out`.
    fn write_list(list: &Vec<Box<SlabErr>>, i: usize, out: &mut String)
        ensures
            final(out)@ == old(out)@ + list_text(*list, i as int),
        decreases list, list.len() - i,
    {
        if i < list.len() {
            list[i].write(out);
            Self::write_list(list, i + 1, out);
            assert(out@ =~= old(out)@ + list_text(*list, i as int));
        } else {
            assert(out@ =~= old(out)@ + list_text(*list, i as int));
        }
    }

    /// The text that the failure is shown as.
    pub fn message(&self) -> (s: String)
        ensures
            s@ == text_of(*self),
    {
        let mut s = String::new();
        self.write(&mut s);
        assert(Seq::<char>::empty() + text_of(*self) =~= text_of(*self));
        s
    }
}

} // verus!
