//! Symbols: the canonical form of the names that classes share.

use vstd::prelude::*;

verus! {

/// A name, held once and shared by all that use it.
#[derive(Debug, Clone, Copy, PartialEq, Eq)]
pub struct Symbol {
    pub length: u16,
    pub body: [u8; 2],
}

} // verus!
