//! Compact reports from the output of JavaScript tooling.
//!
//! Every function of this crate says in its contract, over sequences of
//! characters, exactly which text it returns.

pub mod chars;
pub mod command;
pub mod document;
pub mod excerpt;
pub mod install;
pub mod laws;
pub mod pattern;
pub mod playwright;
pub mod prettier;
pub mod results;
pub mod rich;
pub mod summary;
pub mod text;
