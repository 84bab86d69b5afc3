//! Components as a model declares them: variables, facts, actions and the
//! handlers of actions.

use vstd::prelude::*;

verus! {

/// A literal value. A number that is no integer is kept as its decimal
/// text.
#[derive(Debug, Clone)]
pub enum Val {
    Float(String),
    Int(isize),
    String(String),
    Ident(Ident),
}

/// The type of a value.
#[derive(Debug, Clone)]
pub enum ValType {
    Float,
    Int,
    String,
    Ident,
    Component(ComponentName),
}

/// A declared variable.
#[derive(Debug, Clone)]
pub struct VarDef {
    pub is_const: bool,
    pub typ: ValType,
    pub default: Option<Val>,
}

/// The code of an action, a fact or a handler.
#[derive(Debug, Clone)]
pub struct Program {}

/// A declared action.
#[derive(Debug, Clone)]
pub struct ActionDef {
    pub name: Ident,
    pub code: Program,
}

/// A declared fact.
#[derive(Debug, Clone)]
pub struct FactDef {
    pub name: Ident,
    pub code: Program,
}

/// A declared handler of an action.
#[derive(Debug, Clone)]
pub struct ActionHandlerDef {
    pub name: Ident,
    pub code: Program,
}

/// An identifier.
#[derive(Debug, Hash, Clone)]
pub struct Ident(pub String);

/// The name of a component.
#[derive(Debug, Hash, Clone)]
pub struct ComponentName(pub String);

/// A declared component.
#[derive(Debug)]
pub struct ComponentDef {
    pub name: ComponentName,
    /// The components that this one needs.
    pub requirements: Vec<ComponentName>,
    pub vars: Vec<VarDef>,
    pub facts: Vec<FactDef>,
    pub actions: Vec<ActionDef>,
    pub action_handlers: Vec<ActionHandlerDef>,
}

} // verus!
