use vstd::prelude::*;

pub mod config;
pub mod error;
pub mod loaders;
pub mod record;
pub mod store;

verus! {

} // verus!
