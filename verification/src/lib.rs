use vstd::prelude::*;

pub mod assoc;
pub mod text;
pub mod order;
pub mod error;
pub mod state;
pub mod cli;
pub mod util;
pub mod envmap;
pub mod path;
pub mod config;
pub mod buildspec;
pub mod tajfile;
pub mod preflight;
pub mod mirror;
pub mod install;
pub mod conflicts;
pub mod cloned;
pub mod resolve;
pub mod prefix;
pub mod command;
pub mod steps;
pub mod detect;
pub mod git;
pub mod builder;
pub mod laws;
