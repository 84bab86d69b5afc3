//! An object runtime with structural slot layouts, message dispatch over
//! composed classes, and frame-pinned references; the expression language
//! that it runs, and the definitions of models.

pub mod err;
pub mod grammar;
pub mod lang;
pub mod lexer;
pub mod model;
pub mod parser;
pub mod runtime;
pub mod text;
