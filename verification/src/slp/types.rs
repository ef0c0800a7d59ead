use vstd::prelude::*;

verus! {

/// SLP version ID: four raw bytes interpreted as an ASCII tag.
pub type SLPVersion = [u8; 4];

/// Row offsets in the command table.
pub type SLPRowOffset = u32;

} // verus!
