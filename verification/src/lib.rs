use vstd::prelude::*;

pub mod client;
pub mod config;
pub mod error;
pub mod io;
pub mod options;
pub mod paths;
pub mod shim;
pub mod specs;
pub mod text;

verus! {
} // verus!
