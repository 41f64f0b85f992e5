//! Decoding of captured network frames into canonical traffic units, their
//! deduplication, and the derivation of communications, port observations and
//! protocol names from the distinct units.
use vstd::prelude::*;

pub mod text;
pub mod pinfo;
pub mod store;
pub mod dumpreader;
pub mod analyze;
pub mod normalize;
pub mod report;

verus! {

} // verus!
