//! The kinds of value that a descriptor can name.

use vstd::prelude::*;

verus! {

/// The kind of a value: a primitive, a reference, an array, or nothing.
#[derive(Debug, Clone, Copy, PartialEq, Eq)]
pub enum Type {
    Byte,
    Char,
    Double,
    Float,
    Integer,
    Long,
    Reference,
    Short,
    Boolean,
    Array,
    Void,
}

} // verus!
