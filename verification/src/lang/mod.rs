//! The class definition language.

pub mod lexer;

use vstd::prelude::*;

verus! {

/// A literal value. A number is kept as its decimal text.
#[derive(Debug, Clone)]
pub enum Val {
    Number(String),
    String(String),
    Ident(Ident),
}

/// The type of a value.
#[derive(Debug, Clone)]
pub enum ValType {
    Number,
    String,
    Ident,
    Class(ClassName),
}

/// An identifier.
#[derive(Debug, Hash, Clone)]
pub struct Ident(pub String);

/// The name of a class.
#[derive(Debug, Clone)]
pub struct ClassName(pub String);

/// A declared class.
#[derive(Debug)]
pub struct ClassDefinition {
    pub name: ClassName,
    /// Whether the class can be instantiated as an agent.
    pub agent: bool,
    /// The classes that this one is composed of, in declaration order.
    pub components: Vec<ClassName>,
    pub vars: Vec<VarDef>,
    pub actions: Vec<ActionDef>,
    pub facts: Vec<FactDef>,
    pub handlers: Vec<ActionHandlerDef>,
}

/// A declared variable.
#[derive(Debug)]
pub struct VarDef {
    pub identifier: Ident,
    pub ttype: ValType,
    pub default: Option<Val>,
}

/// A declared action.
#[derive(Debug, Clone)]
pub struct ActionDef {
    pub name: Ident,
}

/// A declared fact.
#[derive(Debug, Clone)]
pub struct FactDef {
    pub name: Ident,
}

/// A declared handler of an action.
#[derive(Debug, Clone)]
pub struct ActionHandlerDef {
    pub name: Ident,
}

} // verus!
