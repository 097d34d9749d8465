use vstd::prelude::*;

pub mod assets;
pub mod config;
pub mod localization;
pub mod model;
pub mod orbit;
pub mod text;

verus! {

} // verus!
