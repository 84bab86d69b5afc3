//! The object model: symbols, shapes, objects, classes, the context that owns
//! them, and message dispatch.

pub mod symbol;
pub mod frame;
pub mod oref;
pub mod shape;
pub mod vmap;
pub mod class;
pub mod table;
pub mod object;
pub mod store;
pub mod context;
pub mod counting;

pub mod dispatch;
pub mod eval;
pub mod laws;
