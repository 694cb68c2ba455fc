//! A keyed registry of scripts and the decisions around running one of them.

pub mod engine;
pub mod host;
pub mod registry;
