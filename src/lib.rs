use vstd::prelude::*;

pub mod auth;
pub mod error;
pub mod laws;
pub mod model;
pub mod service;
pub mod store;
pub mod time;

verus! {

} // verus!
