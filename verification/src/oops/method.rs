//! The runtime descriptor of a method.

use vstd::prelude::*;
use crate::access_flags::{
    AccessFlags, ACC_ABSTRACT, ACC_FINAL, ACC_NATIVE, ACC_PRIVATE, ACC_PROTECTED, ACC_PUBLIC,
    ACC_STATIC, ACC_STRICT, ACC_SYNCHRONIZED, ACC_SYNTHETIC,
};
use crate::method::{method_code, MethodInfo};
use crate::types_ref::ClassRef;

verus! {

/// A method and its place in the method table of its class.
pub struct MethodId {
    pub index: usize,
    pub method: Method,
}

/// A method of a loaded class.
pub struct Method {
    pub access_flags: AccessFlags,
    /// The class that holds the method.
    pub class: ClassRef,
    /// The place of the method in the method list of its class.
    pub offset: usize,
    pub method_info: MethodInfo,
}

impl Method {
    /// The code attribute of the method can be looked up: where the method
    /// says which attribute holds its code, there is such an attribute.
    pub open spec fn code_in_range(&self) -> bool {
        self.method_info.code_attr_index is Some ==> self.method_info.code_attr_index->Some_0
            < self.method_info.attributes.len()
    }

    pub fn access_flags(&self) -> (flags: &AccessFlags)
        ensures
            *flags == self.access_flags,
    {
        &self.access_flags
    }

    pub fn is_public(&self) -> (set: bool)
        ensures
            set == self.access_flags.has(ACC_PUBLIC),
    {
        self.access_flags().is_public()
    }

    pub fn is_private(&self) -> (set: bool)
        ensures
            set == self.access_flags.has(ACC_PRIVATE),
    {
        self.access_flags().is_private()
    }

    pub fn is_protected(&self) -> (set: bool)
        ensures
            set == self.access_flags.has(ACC_PROTECTED),
    {
        self.access_flags().is_protected()
    }

    /// Whether the method is neither public nor private nor protected.
    pub fn is_package_private(&self) -> (set: bool)
        ensures
            set == (!self.access_flags.has(ACC_PUBLIC) && !self.access_flags.has(ACC_PRIVATE)
                && !self.access_flags.has(ACC_PROTECTED)),
    {
        !self.is_public() && !self.is_private() && !self.is_protected()
    }

    pub fn is_static(&self) -> (set: bool)
        ensures
            set == self.access_flags.has(ACC_STATIC),
    {
        self.access_flags().is_static()
    }

    pub fn is_final(&self) -> (set: bool)
        ensures
            set == self.access_flags.has(ACC_FINAL),
    {
        self.access_flags().is_final()
    }

    pub fn is_synchronized(&self) -> (set: bool)
        ensures
            set == self.access_flags.has(ACC_SYNCHRONIZED),
    {
        self.access_flags().is_synchronized()
    }

    pub fn is_native(&self) -> (set: bool)
        ensures
            set == self.access_flags.has(ACC_NATIVE),
    {
        self.access_flags().is_native()
    }

    pub fn is_abstract(&self) -> (set: bool)
        ensures
            set == self.access_flags.has(ACC_ABSTRACT),
    {
        self.access_flags().is_abstract()
    }

    pub fn is_strict(&self) -> (set: bool)
        ensures
            set == self.access_flags.has(ACC_STRICT),
    {
        self.access_flags().is_strict()
    }

    pub fn is_synthetic(&self) -> (set: bool)
        ensures
            set == self.access_flags.has(ACC_SYNTHETIC),
    {
        self.access_flags().is_synthetic()
    }

    /// The pool index of the method's name.
    pub fn name_index(&self) -> (index: u16)
        ensures
            index == self.method_info.name_index,
    {
        self.method_info.name_index
    }

    /// The number of local-variable slots of the method's code, 0 where the
    /// method has no code.
    pub fn max_locals(&self) -> (n: usize)
        requires
            self.code_in_range(),
        ensures
            n == match method_code(self.method_info.deep_view()) {
                Some(code) => code.max_locals as usize,
                None => 0usize,
            },
    {
        match self.method_info.get_code() {
            Some(code) => code.max_locals as usize,
            None => 0,
        }
    }

    /// The depth of the operand stack of the method's code, 0 where the
    /// method has no code.
    pub fn max_stack(&self) -> (n: usize)
        requires
            self.code_in_range(),
        ensures
            n == match method_code(self.method_info.deep_view()) {
                Some(code) => code.max_stack as usize,
                None => 0usize,
            },
    {
        match self.method_info.get_code() {
            Some(code) => code.max_stack as usize,
            None => 0,
        }
    }
}

} // verus!
