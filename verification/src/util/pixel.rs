use std::collections::HashMap;
use vstd::prelude::*;

verus! {

/// Convert a pixel to a RGBA value.
pub trait RGBAConvertible {
    /// Convert a pixel to a RGBA value, given a palette lookup table.
    fn to_rgba(&self, lookup: HashMap<usize, [u8; 4]>) -> [u8; 4];
}

} // verus!
