//! Questions that are put to the Python code of a model.

use vstd::prelude::*;
use crate::text::push_str;

verus! {

/// The Python expression that tests whether `symbol` is a subclass of the
/// class `sim_class` of the module `sim`.
pub open spec fn subclass_test(sim_class: Seq<char>, symbol: Seq<char>) -> Seq<char> {
    "issubclass("@ + symbol + ", sim."@ + sim_class + ")"@
}

/// The Python expression that tests whether `symbol` is a subclass of the
/// class `sim_class` of the module `sim`.
pub fn sim_subclass_test(sim_class: &str, symbol: &str) -> (code: String)
    ensures
        code@ == subclass_test(sim_class@, symbol@),
{
    let mut code = String::new();
    push_str(&mut code, "issubclass(");
    push_str(&mut code, symbol);
    push_str(&mut code, ", sim.");
    push_str(&mut code, sim_class);
    push_str(&mut code, ")");
    assert(code@ =~= subclass_test(sim_class@, symbol@));
    code
}

/// What the test comes to, given what Python answered: the answer, or `false`
/// where the test could not be run.
pub fn sim_subclass_answer(answer: Option<bool>) -> (b: bool)
    ensures
        b == (answer == Some(true)),
{
    match answer {
        Some(b) => b,
        None => false,
    }
}

} // verus!
