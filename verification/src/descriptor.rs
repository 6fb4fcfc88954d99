//! Descriptors: the text in which a class file names the type of a field and
//! the parameters and result of a method.

use vstd::prelude::*;
use vstd::string::StringExecFns;

verus! {

/// The type of a field, of a parameter or of a result that is not `void`.
#[derive(Debug)]
pub enum FieldType<'a> {
    Byte,
    Char,
    Double,
    Float,
    Int,
    Long,
    Reference(&'a String),
    Short,
    Boolean,
    Array(Box<FieldType<'a>>),
}

/// The text of a field type: one letter for a primitive, `L` and the class
/// name for a reference, `[` and the text of the component for an array.
pub open spec fn field_type_text(t: FieldType) -> Seq<char>
    decreases t,
{
    match t {
        FieldType::Byte => "B"@,
        FieldType::Char => "C"@,
        FieldType::Double => "D"@,
        FieldType::Float => "F"@,
        FieldType::Int => "I"@,
        FieldType::Long => "J"@,
        FieldType::Reference(name) => "L"@ + name@,
        FieldType::Short => "S"@,
        FieldType::Boolean => "Z"@,
        FieldType::Array(component) => "["@ + field_type_text(*component),
    }
}

impl<'a> FieldType<'a> {
    /// The text of the field type.
    pub fn to_text(&self) -> (text: String)
        ensures
            text@ == field_type_text(*self),
        decreases *self,
    {
        match self {
            FieldType::Byte => String::from_str("B"),
            FieldType::Char => String::from_str("C"),
            FieldType::Double => String::from_str("D"),
            FieldType::Float => String::from_str("F"),
            FieldType::Int => String::from_str("I"),
            FieldType::Long => String::from_str("J"),
            FieldType::Reference(name) => String::from_str("L").concat(name.as_str()),
            FieldType::Short => String::from_str("S"),
            FieldType::Boolean => String::from_str("Z"),
            FieldType::Array(component) => {
                let inner = component.to_text();
                String::from_str("[").concat(inner.as_str())
            },
        }
    }
}

/// The type of one parameter of a method.
#[derive(Debug)]
pub enum ParameterDescriptor<'a> {
    FieldType(FieldType<'a>),
}

impl<'a> ParameterDescriptor<'a> {
    /// The text of the parameter's type.
    pub open spec fn text(self) -> Seq<char> {
        match self {
            ParameterDescriptor::FieldType(field_type) => field_type_text(field_type),
        }
    }

    /// The text of the parameter's type.
    pub fn to_text(&self) -> (text: String)
        ensures
            text@ == self.text(),
    {
        match self {
            ParameterDescriptor::FieldType(field_type) => field_type.to_text(),
        }
    }
}

/// The absence of a result.
#[derive(Debug, Clone, Copy, PartialEq, Eq)]
pub enum VoidDescriptor {
    Void,
}

impl VoidDescriptor {
    /// The text of `void`: the letter `V`.
    pub fn to_text(&self) -> (text: String)
        ensures
            text@ == "V"@,
    {
        String::from_str("V")
    }
}

/// The type of the result of a method.
#[derive(Debug)]
pub enum ReturnDescriptor<'a> {
    FieldType(FieldType<'a>),
    Void(VoidDescriptor),
}

impl<'a> ReturnDescriptor<'a> {
    /// The text of the result's type.
    pub open spec fn text(self) -> Seq<char> {
        match self {
            ReturnDescriptor::FieldType(field_type) => field_type_text(field_type),
            ReturnDescriptor::Void(_) => "V"@,
        }
    }

    /// The text of the result's type.
    pub fn to_text(&self) -> (text: String)
        ensures
            text@ == self.text(),
    {
        match self {
            ReturnDescriptor::FieldType(field_type) => field_type.to_text(),
            ReturnDescriptor::Void(void) => void.to_text(),
        }
    }
}

} // verus!
