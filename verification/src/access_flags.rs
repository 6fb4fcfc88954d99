//! The modifier bits of classes, fields, methods and parameters.

use vstd::prelude::*;

verus! {

pub const ACC_PUBLIC: u16 = 0x0001;

pub const ACC_PRIVATE: u16 = 0x0002;

pub const ACC_PROTECTED: u16 = 0x0004;

pub const ACC_STATIC: u16 = 0x0008;

pub const ACC_FINAL: u16 = 0x0010;

pub const ACC_SUPER: u16 = 0x0020;

pub const ACC_SYNCHRONIZED: u16 = 0x0020;

pub const ACC_BRIDGE: u16 = 0x0040;

pub const ACC_VOLATILE: u16 = 0x0040;

pub const ACC_VARARGS: u16 = 0x0080;

pub const ACC_TRANSIENT: u16 = 0x0080;

pub const ACC_NATIVE: u16 = 0x0100;

pub const ACC_INTERFACE: u16 = 0x0200;

pub const ACC_ABSTRACT: u16 = 0x0400;

pub const ACC_STRICT: u16 = 0x0800;

pub const ACC_SYNTHETIC: u16 = 0x1000;

pub const ACC_ANNOTATION: u16 = 0x2000;

pub const ACC_ENUM: u16 = 0x4000;

/// A set of modifier bits, as an `access_flags` field holds it.
#[derive(Debug, Clone, Copy, PartialEq, Eq)]
pub struct AccessFlags(u16);

impl View for AccessFlags {
    type V = u16;

    closed spec fn view(&self) -> u16 {
        self.0
    }
}

impl AccessFlags {
    /// Whether one of the bits of `mask` is set.
    pub open spec fn has(self, mask: u16) -> bool {
        self@ & mask != 0
    }

    /// The flags that the bits stand for.
    pub fn new(bits: u16) -> (flags: AccessFlags)
        ensures
            flags@ == bits,
    {
        AccessFlags(bits)
    }

    /// The bits of the flags.
    pub fn bits(&self) -> (bits: u16)
        ensures
            bits == self@,
    {
        self.0
    }

    pub fn is_public(&self) -> (set: bool)
        ensures
            set == self.has(ACC_PUBLIC),
    {
        self.0 & ACC_PUBLIC != 0
    }

    pub fn is_private(&self) -> (set: bool)
        ensures
            set == self.has(ACC_PRIVATE),
    {
        self.0 & ACC_PRIVATE != 0
    }

    pub fn is_protected(&self) -> (set: bool)
        ensures
            set == self.has(ACC_PROTECTED),
    {
        self.0 & ACC_PROTECTED != 0
    }

    pub fn is_static(&self) -> (set: bool)
        ensures
            set == self.has(ACC_STATIC),
    {
        self.0 & ACC_STATIC != 0
    }

    pub fn is_final(&self) -> (set: bool)
        ensures
            set == self.has(ACC_FINAL),
    {
        self.0 & ACC_FINAL != 0
    }

    pub fn is_synchronized(&self) -> (set: bool)
        ensures
            set == self.has(ACC_SYNCHRONIZED),
    {
        self.0 & ACC_SYNCHRONIZED != 0
    }

    pub fn is_super(&self) -> (set: bool)
        ensures
            set == self.has(ACC_SUPER),
    {
        self.0 & ACC_SUPER != 0
    }

    pub fn is_volatile(&self) -> (set: bool)
        ensures
            set == self.has(ACC_VOLATILE),
    {
        self.0 & ACC_VOLATILE != 0
    }

    pub fn is_transient(&self) -> (set: bool)
        ensures
            set == self.has(ACC_TRANSIENT),
    {
        self.0 & ACC_TRANSIENT != 0
    }

    pub fn is_native(&self) -> (set: bool)
        ensures
            set == self.has(ACC_NATIVE),
    {
        self.0 & ACC_NATIVE != 0
    }

    pub fn is_interface(&self) -> (set: bool)
        ensures
            set == self.has(ACC_INTERFACE),
    {
        self.0 & ACC_INTERFACE != 0
    }

    pub fn is_abstract(&self) -> (set: bool)
        ensures
            set == self.has(ACC_ABSTRACT),
    {
        self.0 & ACC_ABSTRACT != 0
    }

    pub fn is_strict(&self) -> (set: bool)
        ensures
            set == self.has(ACC_STRICT),
    {
        self.0 & ACC_STRICT != 0
    }

    pub fn is_synthetic(&self) -> (set: bool)
        ensures
            set == self.has(ACC_SYNTHETIC),
    {
        self.0 & ACC_SYNTHETIC != 0
    }
}

} // verus!
