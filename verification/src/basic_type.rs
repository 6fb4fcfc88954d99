//! The basic types of the virtual machine and the letters that stand for them
//! in descriptors.

use vstd::prelude::*;
use vstd::string::StringSliceAdditionalSpecFns;

verus! {

/// A basic type of the virtual machine.
#[allow(non_camel_case_types)]
#[derive(Debug, Clone, Copy, PartialEq, Eq)]
pub enum BasicType {
    BOOLEAN,
    CHAR,
    FLOAT,
    DOUBLE,
    BYTE,
    SHORT,
    INT,
    LONG,
    OBJECT,
    ARRAY,
    VOID,
}

impl BasicType {
    /// The letter that stands for the type in a descriptor.
    pub open spec fn letter(self) -> u8 {
        match self {
            BasicType::BOOLEAN => 90,
            BasicType::CHAR => 67,
            BasicType::FLOAT => 70,
            BasicType::DOUBLE => 68,
            BasicType::BYTE => 66,
            BasicType::SHORT => 83,
            BasicType::INT => 73,
            BasicType::LONG => 74,
            BasicType::OBJECT => 76,
            BasicType::ARRAY => 91,
            BasicType::VOID => 86,
        }
    }

    /// Whether a byte is the letter of a basic type.
    pub open spec fn is_letter(value: u8) -> bool {
        value == 90 || value == 67 || value == 70 || value == 68 || value == 66 || value == 83
            || value == 73 || value == 74 || value == 76 || value == 91 || value == 86
    }

    /// The number by which the virtual machine knows the type.
    pub open spec fn spec_code(self) -> u8 {
        match self {
            BasicType::BOOLEAN => 4,
            BasicType::CHAR => 5,
            BasicType::FLOAT => 6,
            BasicType::DOUBLE => 7,
            BasicType::BYTE => 8,
            BasicType::SHORT => 9,
            BasicType::INT => 10,
            BasicType::LONG => 11,
            BasicType::OBJECT => 12,
            BasicType::ARRAY => 13,
            BasicType::VOID => 14,
        }
    }

    /// The name of a primitive type in the source language.
    pub open spec fn primitive_name(self) -> Seq<char> {
        match self {
            BasicType::BOOLEAN => "boolean"@,
            BasicType::CHAR => "char"@,
            BasicType::FLOAT => "float"@,
            BasicType::DOUBLE => "double"@,
            BasicType::BYTE => "byte"@,
            BasicType::SHORT => "short"@,
            BasicType::INT => "int"@,
            _ => "long"@,
        }
    }

    /// Whether the type is one of the eight primitive types.
    pub open spec fn is_primitive(self) -> bool {
        !(self is OBJECT) && !(self is ARRAY) && !(self is VOID)
    }

    /// The number by which the virtual machine knows the type.
    pub fn code(self) -> (code: u8)
        ensures
            code == self.spec_code(),
    {
        match self {
            BasicType::BOOLEAN => 4,
            BasicType::CHAR => 5,
            BasicType::FLOAT => 6,
            BasicType::DOUBLE => 7,
            BasicType::BYTE => 8,
            BasicType::SHORT => 9,
            BasicType::INT => 10,
            BasicType::LONG => 11,
            BasicType::OBJECT => 12,
            BasicType::ARRAY => 13,
            BasicType::VOID => 14,
        }
    }

    /// The basic type that a descriptor letter stands for.
    pub fn from_letter(value: u8) -> (basic_type: BasicType)
        requires
            Self::is_letter(value),
        ensures
            basic_type.letter() == value,
    {
        match value {
            90 => BasicType::BOOLEAN,
            67 => BasicType::CHAR,
            70 => BasicType::FLOAT,
            68 => BasicType::DOUBLE,
            66 => BasicType::BYTE,
            83 => BasicType::SHORT,
            73 => BasicType::INT,
            74 => BasicType::LONG,
            76 => BasicType::OBJECT,
            91 => BasicType::ARRAY,
            _ => BasicType::VOID,
        }
    }

    /// The letter that stands for the type in a descriptor.
    pub fn into_letter(self) -> (value: u8)
        ensures
            value == self.letter(),
    {
        match self {
            BasicType::BOOLEAN => 90,
            BasicType::CHAR => 67,
            BasicType::FLOAT => 70,
            BasicType::DOUBLE => 68,
            BasicType::BYTE => 66,
            BasicType::SHORT => 83,
            BasicType::INT => 73,
            BasicType::LONG => 74,
            BasicType::OBJECT => 76,
            BasicType::ARRAY => 91,
            BasicType::VOID => 86,
        }
    }

    /// The name of a primitive type in the source language, in UTF-8.
    pub fn get_primitive_name(&self) -> (name: &'static [u8])
        requires
            self.is_primitive(),
        ensures
            name@ == vstd::utf8::encode_utf8(self.primitive_name()),
    {
        match *self {
            BasicType::BOOLEAN => "boolean".as_bytes(),
            BasicType::CHAR => "char".as_bytes(),
            BasicType::FLOAT => "float".as_bytes(),
            BasicType::DOUBLE => "double".as_bytes(),
            BasicType::BYTE => "byte".as_bytes(),
            BasicType::SHORT => "short".as_bytes(),
            BasicType::INT => "int".as_bytes(),
            _ => "long".as_bytes(),
        }
    }
}

} // verus!
