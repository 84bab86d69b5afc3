//! Agent classes as a model declares them.

use vstd::prelude::*;

verus! {

/// The type of a declared variable.
#[derive(Debug, Clone, Copy, PartialEq, Eq, Structural)]
pub enum SimulabraType {
    Number,
    String,
    Bool,
    Agent,
}

/// The name of a variable.
#[derive(Debug, Clone)]
pub struct Identifier(pub String);

/// A declared variable: its name and its type.
#[derive(Debug, Clone)]
pub struct VarDefinition {
    pub identifier: Identifier,
    pub ttype: SimulabraType,
}

/// The name of a class.
#[derive(Debug, Clone)]
pub struct ClassName(pub String);

/// A declared class.
#[derive(Debug, Clone)]
pub struct ClassDefinition {
    pub name: ClassName,
    /// Whether the class can be instantiated as an agent.
    pub agent: bool,
    /// The classes that this one is composed of, in declaration order.
    pub components: Vec<ClassName>,
}

} // verus!
