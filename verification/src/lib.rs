//! sndlab: the verified core of a procedural sound-design environment.

use vstd::prelude::*;

pub mod ambient;
pub mod ambient_start;
pub mod delay_line;
pub mod edit;
pub mod error;
pub mod externals;
pub mod fade;
pub mod handle;
pub mod layout;
pub mod listing;
pub mod log;
pub mod patches;
pub mod project;
pub mod sample_paths;
pub mod session;
pub mod source_map;
pub mod text;

verus! {

} // verus!
