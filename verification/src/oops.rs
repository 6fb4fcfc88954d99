//! The object model that the runtime builds from decoded classes.

use vstd::prelude::*;

pub mod class;
pub mod field;
pub mod method;
pub mod module;
pub mod symbol;

verus! {

/// The address of an object on the heap.
#[derive(Debug, Clone, Copy, PartialEq, Eq)]
pub struct OopRef(pub u64);

/// A value as the interpreter holds it. `Float` and `Double` hold the IEEE
/// 754 bit pattern of their value.
#[derive(Debug, Clone, PartialEq, Eq)]
pub enum Oop {
    Int(i32),
    Long(i64),
    Float(u32),
    Double(u64),
    Null,
    Reference(std::sync::Arc<OopRef>),
}

/// An array of values and the class of the array.
#[derive(Debug, Clone)]
pub struct ArrayOop {
    pub class: crate::types_ref::ClassRef,
    pub elements: Vec<Oop>,
}

/// An array of primitive values. The arrays of `float` and of `double` hold
/// the IEEE 754 bit patterns of their values.
#[derive(Debug, Clone)]
pub enum TypeArrayOop {
    Char(Box<Vec<char>>),
    Boolean(Box<Vec<bool>>),
    Byte(Box<Vec<u8>>),
    Int(Box<Vec<i32>>),
    Long(Box<Vec<i64>>),
    Short(Box<Vec<i16>>),
    Float(Box<Vec<u32>>),
    Double(Box<Vec<u64>>),
}

/// An instance of a class.
#[derive(Debug, Clone, Copy, PartialEq, Eq)]
pub struct InstanceOop {}

/// The mirror of a class: the object that stands for it in the program.
#[derive(Debug, Clone, Copy, PartialEq, Eq)]
pub struct MirrorOop {}

/// An array of references.
#[derive(Debug, Clone, Copy, PartialEq, Eq)]
pub struct ObjArrayOop {}

/// `Arc::clone`: another handle to the value that `shared` holds.
#[verifier::external_body]
pub(crate) fn share<T>(shared: &std::sync::Arc<T>) -> (handle: std::sync::Arc<T>)
    ensures
        handle == *shared,
{
    shared.clone()
}

} // verus!
