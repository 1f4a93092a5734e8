//! Caller identities.

use vstd::prelude::*;

verus! {

/// An opaque, globally unique caller token supplied by the hosting
/// environment.  The environment hands identities out as 256-bit values;
/// they are held here as four 64-bit words and used only as keys and as
/// values stored on other records, never created or interpreted by this
/// crate.
#[derive(Clone, Copy, PartialEq, Eq, Hash, Structural, Debug)]
pub struct Identity {
    pub w0: u64,
    pub w1: u64,
    pub w2: u64,
    pub w3: u64,
}

} // verus!
