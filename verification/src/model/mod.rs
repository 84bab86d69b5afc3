//! Definitions of a model as a loader hands them over: agents and the
//! components that they are composed of.

pub mod agent;
pub mod component;
pub mod python;
pub mod syntax;
