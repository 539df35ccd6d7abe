use vstd::prelude::*;

pub mod config;
pub mod dav;
pub mod error;
pub mod ics;
pub mod text;
pub mod server;

verus! {

} // verus!
