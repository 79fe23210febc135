//! The serial control input.

use vstd::prelude::*;

verus! {

/// A serial control surface; its bytes are read and shown by the host.
pub struct Serial {}

impl Serial {
    pub fn new() -> (r: Serial) {
        Serial {}
    }
}

} // verus!
