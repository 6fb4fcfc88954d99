//! The runtime descriptor of a field.

use vstd::prelude::*;
use crate::access_flags::{
    AccessFlags, ACC_FINAL, ACC_PRIVATE, ACC_PROTECTED, ACC_PUBLIC, ACC_STATIC, ACC_VOLATILE,
};
use crate::basic_type::BasicType;
use crate::field::FieldInfo;
use crate::oops::share;
use crate::oops::Oop;
use crate::types_ref::ClassRef;
use crate::BytesRef;

verus! {

/// A field and its place in the field table of its class.
pub struct FieldId {
    pub index: usize,
    pub field: Field,
}

/// A field of a loaded class.
pub struct Field {
    pub access_flags: AccessFlags,
    /// The class that holds the field.
    pub class: ClassRef,
    pub name: BytesRef,
    pub field_type: BasicType,
    pub field_info: FieldInfo,
    /// The value that a static field with a `ConstantValue` attribute starts
    /// with.
    pub constant_value: Option<Oop>,
}

impl Field {
    /// The class that holds the field.
    pub fn field_holder(&self) -> (class: ClassRef)
        ensures
            class == self.class,
    {
        share(&self.class)
    }

    pub fn field_info(&self) -> (info: &FieldInfo)
        ensures
            *info == self.field_info,
    {
        &self.field_info
    }

    pub fn access_flags(&self) -> (flags: &AccessFlags)
        ensures
            *flags == self.access_flags,
    {
        &self.access_flags
    }

    pub fn name(&self) -> (name: &BytesRef)
        ensures
            *name == self.name,
    {
        &self.name
    }

    /// The pool index of the field's name.
    pub fn name_index(&self) -> (index: u16)
        ensures
            index == self.field_info.name_index,
    {
        self.field_info.name_index
    }

    pub fn is_public(&self) -> (set: bool)
        ensures
            set == self.access_flags.has(ACC_PUBLIC),
    {
        self.access_flags().is_public()
    }

    pub fn is_private(&self) -> (set: bool)
        ensures
            set == self.access_flags.has(ACC_PRIVATE),
    {
        self.access_flags().is_private()
    }

    pub fn is_protected(&self) -> (set: bool)
        ensures
            set == self.access_flags.has(ACC_PROTECTED),
    {
        self.access_flags().is_protected()
    }

    pub fn is_volatile(&self) -> (set: bool)
        ensures
            set == self.access_flags.has(ACC_VOLATILE),
    {
        self.access_flags().is_volatile()
    }

    pub fn is_static(&self) -> (set: bool)
        ensures
            set == self.access_flags.has(ACC_STATIC),
    {
        self.access_flags().is_static()
    }

    pub fn is_final(&self) -> (set: bool)
        ensures
            set == self.access_flags.has(ACC_FINAL),
    {
        self.access_flags().is_final()
    }
}

} // verus!
