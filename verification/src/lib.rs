use vstd::prelude::*;

pub mod domain;
pub mod import;
pub mod render;
pub mod server;
pub mod service;
pub mod store;
pub mod telemetry;
pub mod text;

verus! {

} // verus!
