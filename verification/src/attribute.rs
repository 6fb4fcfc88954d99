//! The attribute tables of classes, fields, methods and code.
//!
//! An attribute is a name index, a declared length and a payload whose shape
//! the name decides. The name is looked up in the constant pool, so decoding
//! takes the pool. The declared length is held to on both ways: the decoder
//! reads the payload from exactly that many bytes, and the encoder writes the
//! length that the payload has.

use vstd::prelude::*;
use crate::attribute::annotation::{
    Annotation, AnnotationView, ElementValue, ElementValueView, ParameterAnnotation,
    ParameterAnnotationView,
};
use crate::attribute::kind::AttributeKind;
use crate::attribute::records::{
    BootstrapMethod, BootstrapMethodView, Exception, InnerClass, LineNumber, LocalVariable,
    LocalVariableType, MethodParameter,
};
use crate::attribute::stack_map::{StackMap, StackMapView};
use crate::attribute::type_annotation::{TypeAnnotation, TypeAnnotationView};
use crate::codec::{join, parse_table16, parse_table8, wire_table16, wire_table8, Wire};
use crate::constant::{pool_utf8, ConstantView};
use crate::error::ErrorView;
use crate::wire::{bytes_u16, bytes_u32, parse_bytes, parse_u16, parse_u32, Parsed, Wired};
use crate::BytesRef;

pub mod records;
pub mod stack_map;
pub mod annotation;
pub mod type_annotation;
pub mod kind;
pub mod decode;
pub mod encode;
pub mod laws;

verus! {

/// One attribute: the pool index of its name, the length of its payload in
/// bytes, and the payload.
#[derive(Debug, PartialEq, Eq)]
pub struct Attribute {
    pub attribute_name_index: u16,
    pub attribute_length: u32,
    pub attr_type: AttributeType,
}

/// The payload of an attribute.
#[derive(Debug, PartialEq, Eq)]
pub enum AttributeType {
    /// The pool index of a field's constant value.
    ConstantValue { constant_value_index: u16 },
    /// The body of a method.
    Code { code: CodeAttribute },
    /// The stack-map frames of a method body.
    StackMapTable { entries: Vec<StackMap> },
    /// The pool indices of the classes that a method may throw.
    Exceptions { exception_index_table: Vec<u16> },
    /// The classes nested in a class.
    InnerClasses { classes: Vec<InnerClass> },
    /// The class and the method that enclose a local class.
    EnclosingMethod { class_index: u16, method_index: u16 },
    /// Marks what the compiler made up.
    Synthetic,
    /// The pool index of a generic signature.
    Signature { signature_index: u16 },
    /// The pool index of the source file's name.
    SourceFile { sourcefile_index: u16 },
    /// Debugging information, as the bytes it was given in.
    SourceDebugExtension { debug_extension: Vec<u8> },
    /// The source lines of the bytecode offsets.
    LineNumberTable { line_number_table: Vec<LineNumber> },
    /// The local variables of a method body.
    LocalVariableTable { local_variable_table: Vec<LocalVariable> },
    /// The generic signatures of the local variables.
    LocalVariableTypeTable { local_variable_type_table: Vec<LocalVariableType> },
    /// Marks what is deprecated.
    Deprecated,
    /// The annotations that are visible at run time.
    RuntimeVisibleAnnotations { annotations: Vec<Annotation> },
    /// The annotations that are not visible at run time.
    RuntimeInvisibleAnnotations { annotations: Vec<Annotation> },
    /// The visible annotations of each formal parameter.
    RuntimeVisibleParameterAnnotations { parameter_annotations: Vec<ParameterAnnotation> },
    /// The invisible annotations of each formal parameter.
    RuntimeInvisibleParameterAnnotations { parameter_annotations: Vec<ParameterAnnotation> },
    /// The visible annotations on uses of types.
    RuntimeVisibleTypeAnnotations { annotations: Vec<TypeAnnotation> },
    /// The invisible annotations on uses of types.
    RuntimeInvisibleTypeAnnotations { annotations: Vec<TypeAnnotation> },
    /// The default value of an annotation's element.
    AnnotationDefault { default_value: ElementValue },
    /// The bootstrap methods of the dynamic call sites.
    BootstrapMethods { bootstrap_methods: Vec<BootstrapMethod> },
    /// The names and flags of the formal parameters.
    MethodParameters { parameters: Vec<MethodParameter> },
}

/// The body of a method: the sizes of its frame, its bytecode, its exception
/// table and its own attributes.
#[derive(Debug, PartialEq, Eq)]
pub struct CodeAttribute {
    pub max_stack: u16,
    pub max_locals: u16,
    pub code: BytesRef,
    pub exception_table: Vec<Exception>,
    pub attributes: Vec<Attribute>,
}

/// The model of an [`Attribute`].
pub struct AttributeView {
    pub attribute_name_index: u16,
    pub attribute_length: u32,
    pub attr_type: AttributeTypeView,
}

/// The model of an [`AttributeType`].
pub enum AttributeTypeView {
    ConstantValue { constant_value_index: u16 },
    Code { code: CodeAttributeView },
    StackMapTable { entries: Seq<StackMapView> },
    Exceptions { exception_index_table: Seq<u16> },
    InnerClasses { classes: Seq<InnerClass> },
    EnclosingMethod { class_index: u16, method_index: u16 },
    Synthetic,
    Signature { signature_index: u16 },
    SourceFile { sourcefile_index: u16 },
    SourceDebugExtension { debug_extension: Seq<u8> },
    LineNumberTable { line_number_table: Seq<LineNumber> },
    LocalVariableTable { local_variable_table: Seq<LocalVariable> },
    LocalVariableTypeTable { local_variable_type_table: Seq<LocalVariableType> },
    Deprecated,
    RuntimeVisibleAnnotations { annotations: Seq<AnnotationView> },
    RuntimeInvisibleAnnotations { annotations: Seq<AnnotationView> },
    RuntimeVisibleParameterAnnotations { parameter_annotations: Seq<ParameterAnnotationView> },
    RuntimeInvisibleParameterAnnotations { parameter_annotations: Seq<ParameterAnnotationView> },
    RuntimeVisibleTypeAnnotations { annotations: Seq<TypeAnnotationView> },
    RuntimeInvisibleTypeAnnotations { annotations: Seq<TypeAnnotationView> },
    AnnotationDefault { default_value: ElementValueView },
    BootstrapMethods { bootstrap_methods: Seq<BootstrapMethodView> },
    MethodParameters { parameters: Seq<MethodParameter> },
}

/// The model of a [`CodeAttribute`].
pub struct CodeAttributeView {
    pub max_stack: u16,
    pub max_locals: u16,
    pub code: Seq<u8>,
    pub exception_table: Seq<Exception>,
    pub attributes: Seq<AttributeView>,
}

pub open spec fn attribute_view(a: Attribute) -> AttributeView
    decreases a,
{
    AttributeView {
        attribute_name_index: a.attribute_name_index,
        attribute_length: a.attribute_length,
        attr_type: attribute_type_view(a.attr_type),
    }
}

pub open spec fn attribute_type_view(t: AttributeType) -> AttributeTypeView
    decreases t,
{
    match t {
        AttributeType::ConstantValue { constant_value_index } =>
            AttributeTypeView::ConstantValue { constant_value_index },
        AttributeType::Code { code } => AttributeTypeView::Code { code: code_view(code) },
        AttributeType::StackMapTable { entries } => AttributeTypeView::StackMapTable {
            entries: entries.deep_view(),
        },
        AttributeType::Exceptions { exception_index_table } => AttributeTypeView::Exceptions {
            exception_index_table: exception_index_table.deep_view(),
        },
        AttributeType::InnerClasses { classes } => AttributeTypeView::InnerClasses {
            classes: classes.deep_view(),
        },
        AttributeType::EnclosingMethod { class_index, method_index } =>
            AttributeTypeView::EnclosingMethod { class_index, method_index },
        AttributeType::Synthetic => AttributeTypeView::Synthetic,
        AttributeType::Signature { signature_index } =>
            AttributeTypeView::Signature { signature_index },
        AttributeType::SourceFile { sourcefile_index } =>
            AttributeTypeView::SourceFile { sourcefile_index },
        AttributeType::SourceDebugExtension { debug_extension } =>
            AttributeTypeView::SourceDebugExtension {
                debug_extension: debug_extension.deep_view(),
            },
        AttributeType::LineNumberTable { line_number_table } => AttributeTypeView::LineNumberTable {
            line_number_table: line_number_table.deep_view(),
        },
        AttributeType::LocalVariableTable { local_variable_table } =>
            AttributeTypeView::LocalVariableTable {
                local_variable_table: local_variable_table.deep_view(),
            },
        AttributeType::LocalVariableTypeTable { local_variable_type_table } =>
            AttributeTypeView::LocalVariableTypeTable {
                local_variable_type_table: local_variable_type_table.deep_view(),
            },
        AttributeType::Deprecated => AttributeTypeView::Deprecated,
        AttributeType::RuntimeVisibleAnnotations { annotations } =>
            AttributeTypeView::RuntimeVisibleAnnotations {
                annotations: annotations.deep_view(),
            },
        AttributeType::RuntimeInvisibleAnnotations { annotations } =>
            AttributeTypeView::RuntimeInvisibleAnnotations {
                annotations: annotations.deep_view(),
            },
        AttributeType::RuntimeVisibleParameterAnnotations { parameter_annotations } =>
            AttributeTypeView::RuntimeVisibleParameterAnnotations {
                parameter_annotations: parameter_annotations.deep_view(),
            },
        AttributeType::RuntimeInvisibleParameterAnnotations { parameter_annotations } =>
            AttributeTypeView::RuntimeInvisibleParameterAnnotations {
                parameter_annotations: parameter_annotations.deep_view(),
            },
        AttributeType::RuntimeVisibleTypeAnnotations { annotations } =>
            AttributeTypeView::RuntimeVisibleTypeAnnotations {
                annotations: annotations.deep_view(),
            },
        AttributeType::RuntimeInvisibleTypeAnnotations { annotations } =>
            AttributeTypeView::RuntimeInvisibleTypeAnnotations {
                annotations: annotations.deep_view(),
            },
        AttributeType::AnnotationDefault { default_value } => AttributeTypeView::AnnotationDefault {
            default_value: default_value.deep_view(),
        },
        AttributeType::BootstrapMethods { bootstrap_methods } =>
            AttributeTypeView::BootstrapMethods {
                bootstrap_methods: bootstrap_methods.deep_view(),
            },
        AttributeType::MethodParameters { parameters } => AttributeTypeView::MethodParameters {
            parameters: parameters.deep_view(),
        },
    }
}

pub open spec fn code_view(c: CodeAttribute) -> CodeAttributeView
    decreases c,
{
    CodeAttributeView {
        max_stack: c.max_stack,
        max_locals: c.max_locals,
        code: c.code.deep_view(),
        exception_table: c.exception_table.deep_view(),
        attributes: Seq::new(
            c.attributes@.len(),
            |i: int|
                if 0 <= i < c.attributes@.len() {
                    attribute_view(c.attributes@[i])
                } else {
                    arbitrary()
                },
        ),
    }
}

impl DeepView for Attribute {
    type V = AttributeView;

    open spec fn deep_view(&self) -> AttributeView {
        attribute_view(*self)
    }
}

impl DeepView for AttributeType {
    type V = AttributeTypeView;

    open spec fn deep_view(&self) -> AttributeTypeView {
        attribute_type_view(*self)
    }
}

impl DeepView for CodeAttribute {
    type V = CodeAttributeView;

    open spec fn deep_view(&self) -> CodeAttributeView {
        code_view(*self)
    }
}

/// The model of a code attribute holds the models of its attributes.
pub proof fn lemma_code_view(c: CodeAttribute)
    ensures
        code_view(c).attributes == c.attributes.deep_view(),
{
    assert(code_view(c).attributes =~= c.attributes.deep_view());
}

impl AttributeTypeView {
    /// The attribute that the payload belongs to.
    pub open spec fn kind(self) -> AttributeKind {
        match self {
            AttributeTypeView::ConstantValue { .. } => AttributeKind::ConstantValue,
            AttributeTypeView::Code { .. } => AttributeKind::Code,
            AttributeTypeView::StackMapTable { .. } => AttributeKind::StackMapTable,
            AttributeTypeView::Exceptions { .. } => AttributeKind::Exceptions,
            AttributeTypeView::InnerClasses { .. } => AttributeKind::InnerClasses,
            AttributeTypeView::EnclosingMethod { .. } => AttributeKind::EnclosingMethod,
            AttributeTypeView::Synthetic => AttributeKind::Synthetic,
            AttributeTypeView::Signature { .. } => AttributeKind::Signature,
            AttributeTypeView::SourceFile { .. } => AttributeKind::SourceFile,
            AttributeTypeView::SourceDebugExtension { .. } => AttributeKind::SourceDebugExtension,
            AttributeTypeView::LineNumberTable { .. } => AttributeKind::LineNumberTable,
            AttributeTypeView::LocalVariableTable { .. } => AttributeKind::LocalVariableTable,
            AttributeTypeView::LocalVariableTypeTable { .. } =>
                AttributeKind::LocalVariableTypeTable,
            AttributeTypeView::Deprecated => AttributeKind::Deprecated,
            AttributeTypeView::RuntimeVisibleAnnotations { .. } =>
                AttributeKind::RuntimeVisibleAnnotations,
            AttributeTypeView::RuntimeInvisibleAnnotations { .. } =>
                AttributeKind::RuntimeInvisibleAnnotations,
            AttributeTypeView::RuntimeVisibleParameterAnnotations { .. } =>
                AttributeKind::RuntimeVisibleParameterAnnotations,
            AttributeTypeView::RuntimeInvisibleParameterAnnotations { .. } =>
                AttributeKind::RuntimeInvisibleParameterAnnotations,
            AttributeTypeView::RuntimeVisibleTypeAnnotations { .. } =>
                AttributeKind::RuntimeVisibleTypeAnnotations,
            AttributeTypeView::RuntimeInvisibleTypeAnnotations { .. } =>
                AttributeKind::RuntimeInvisibleTypeAnnotations,
            AttributeTypeView::AnnotationDefault { .. } => AttributeKind::AnnotationDefault,
            AttributeTypeView::BootstrapMethods { .. } => AttributeKind::BootstrapMethods,
            AttributeTypeView::MethodParameters { .. } => AttributeKind::MethodParameters,
        }
    }
}

/// The head of an attribute: its name index, its declared length, the
/// attribute that the name stands for, and the bytes of its payload.
pub struct Frame {
    pub name_index: u16,
    pub length: u32,
    pub kind: AttributeKind,
    pub payload: Seq<u8>,
}

/// The head of the attribute that the bytes start with, and the bytes after
/// the payload. A name index that is no `Utf8` entry of the pool is a
/// mismatched constant, an unknown name is refused by its text, and a payload
/// that is not all there is a wrong length.
pub open spec fn parse_frame(s: Seq<u8>, pool: Seq<ConstantView>) -> Parsed<Frame> {
    match parse_u16(s) {
        Err(e) => Err(e),
        Ok((name_index, s1)) => match parse_u32(s1) {
            Err(e) => Err(e),
            Ok((length, s2)) => match pool_utf8(pool, name_index as int) {
                None => Err(ErrorView::MismatchConstantType),
                Some(name) => match AttributeKind::of_name(name) {
                    None => Err(ErrorView::InvalidAttributeName(name)),
                    Some(kind) => match parse_bytes(s2, length as nat) {
                        Err(e) => Err(e),
                        Ok((payload, rest)) => Ok(
                            (Frame { name_index, length, kind, payload }, rest),
                        ),
                    },
                },
            },
        },
    }
}

/// The attribute that the bytes start with.
#[verifier::opaque]
pub open spec fn parse_attribute(s: Seq<u8>, pool: Seq<ConstantView>) -> Parsed<AttributeView> {
    match parse_frame(s, pool) {
        Err(e) => Err(e),
        Ok((frame, rest)) => match parse_payload(frame.kind, frame.payload, pool) {
            Err(e) => Err(e),
            Ok(attr_type) => Ok(
                (
                    AttributeView {
                        attribute_name_index: frame.name_index,
                        attribute_length: frame.length,
                        attr_type,
                    },
                    rest,
                ),
            ),
        },
    }
}

/// The payload that `s` holds, which must be all of `s`.
pub open spec fn parse_payload(kind: AttributeKind, s: Seq<u8>, pool: Seq<ConstantView>) -> Result<
    AttributeTypeView,
    ErrorView,
>
    decreases s.len(), 3nat, 0nat,
{
    match parse_body(kind, s, pool) {
        Err(e) => Err(e),
        Ok((attr_type, rest)) => if rest.len() == 0 {
            Ok(attr_type)
        } else {
            Err(ErrorView::InvalidLength)
        },
    }
}

/// The payload of an attribute of the given kind that the bytes start with.
pub open spec fn parse_body(kind: AttributeKind, s: Seq<u8>, pool: Seq<ConstantView>) -> Parsed<
    AttributeTypeView,
>
    decreases s.len(), 2nat, 0nat,
{
    match kind {
        AttributeKind::Code => match parse_code(s, pool) {
            Err(e) => Err(e),
            Ok((code, rest)) => Ok((AttributeTypeView::Code { code }, rest)),
        },
        _ => parse_plain(kind, s),
    }
}

/// The payload of an attribute that holds no attributes of its own. (A code
/// attribute does: it is not read here.)
#[verifier::opaque]
pub open spec fn parse_plain(kind: AttributeKind, s: Seq<u8>) -> Parsed<AttributeTypeView> {
    match kind {
        AttributeKind::ConstantValue => match parse_u16(s) {
            Err(e) => Err(e),
            Ok((constant_value_index, rest)) =>
                Ok((AttributeTypeView::ConstantValue { constant_value_index }, rest)),
        },
        AttributeKind::Code => Err(ErrorView::InvalidLength),
        AttributeKind::StackMapTable => match parse_table16::<StackMap>(s) {
            Err(e) => Err(e),
            Ok((entries, rest)) => Ok((AttributeTypeView::StackMapTable { entries }, rest)),
        },
        AttributeKind::Exceptions => match parse_table16::<u16>(s) {
            Err(e) => Err(e),
            Ok((exception_index_table, rest)) =>
                Ok((AttributeTypeView::Exceptions { exception_index_table }, rest)),
        },
        AttributeKind::InnerClasses => match parse_table16::<InnerClass>(s) {
            Err(e) => Err(e),
            Ok((classes, rest)) => Ok((AttributeTypeView::InnerClasses { classes }, rest)),
        },
        AttributeKind::EnclosingMethod => match parse_u16(s) {
            Err(e) => Err(e),
            Ok((class_index, s1)) => match parse_u16(s1) {
                Err(e) => Err(e),
                Ok((method_index, rest)) =>
                    Ok((AttributeTypeView::EnclosingMethod { class_index, method_index }, rest)),
            },
        },
        AttributeKind::Synthetic => Ok((AttributeTypeView::Synthetic, s)),
        AttributeKind::Signature => match parse_u16(s) {
            Err(e) => Err(e),
            Ok((signature_index, rest)) =>
                Ok((AttributeTypeView::Signature { signature_index }, rest)),
        },
        AttributeKind::SourceFile => match parse_u16(s) {
            Err(e) => Err(e),
            Ok((sourcefile_index, rest)) =>
                Ok((AttributeTypeView::SourceFile { sourcefile_index }, rest)),
        },
        AttributeKind::SourceDebugExtension => Ok(
            (AttributeTypeView::SourceDebugExtension { debug_extension: s }, Seq::empty()),
        ),
        AttributeKind::LineNumberTable => match parse_table16::<LineNumber>(s) {
            Err(e) => Err(e),
            Ok((line_number_table, rest)) =>
                Ok((AttributeTypeView::LineNumberTable { line_number_table }, rest)),
        },
        AttributeKind::LocalVariableTable => match parse_table16::<LocalVariable>(s) {
            Err(e) => Err(e),
            Ok((local_variable_table, rest)) =>
                Ok((AttributeTypeView::LocalVariableTable { local_variable_table }, rest)),
        },
        AttributeKind::LocalVariableTypeTable => match parse_table16::<LocalVariableType>(s) {
            Err(e) => Err(e),
            Ok((local_variable_type_table, rest)) =>
                Ok((AttributeTypeView::LocalVariableTypeTable { local_variable_type_table }, rest)),
        },
        AttributeKind::Deprecated => Ok((AttributeTypeView::Deprecated, s)),
        AttributeKind::RuntimeVisibleAnnotations => match parse_table16::<Annotation>(s) {
            Err(e) => Err(e),
            Ok((annotations, rest)) =>
                Ok((AttributeTypeView::RuntimeVisibleAnnotations { annotations }, rest)),
        },
        AttributeKind::RuntimeInvisibleAnnotations => match parse_table16::<Annotation>(s) {
            Err(e) => Err(e),
            Ok((annotations, rest)) =>
                Ok((AttributeTypeView::RuntimeInvisibleAnnotations { annotations }, rest)),
        },
        AttributeKind::RuntimeVisibleParameterAnnotations =>
            match parse_table8::<ParameterAnnotation>(s) {
                Err(e) => Err(e),
                Ok((parameter_annotations, rest)) => Ok((AttributeTypeView::RuntimeVisibleParameterAnnotations { parameter_annotations }, rest)),
            },
        AttributeKind::RuntimeInvisibleParameterAnnotations =>
            match parse_table8::<ParameterAnnotation>(s) {
                Err(e) => Err(e),
                Ok((parameter_annotations, rest)) => Ok((AttributeTypeView::RuntimeInvisibleParameterAnnotations { parameter_annotations }, rest)),
            },
        AttributeKind::RuntimeVisibleTypeAnnotations => match parse_table16::<TypeAnnotation>(s) {
            Err(e) => Err(e),
            Ok((annotations, rest)) =>
                Ok((AttributeTypeView::RuntimeVisibleTypeAnnotations { annotations }, rest)),
        },
        AttributeKind::RuntimeInvisibleTypeAnnotations => match parse_table16::<TypeAnnotation>(s) {
            Err(e) => Err(e),
            Ok((annotations, rest)) =>
                Ok((AttributeTypeView::RuntimeInvisibleTypeAnnotations { annotations }, rest)),
        },
        AttributeKind::AnnotationDefault => match ElementValue::parse(s) {
            Err(e) => Err(e),
            Ok((default_value, rest)) =>
                Ok((AttributeTypeView::AnnotationDefault { default_value }, rest)),
        },
        AttributeKind::BootstrapMethods => match parse_table16::<BootstrapMethod>(s) {
            Err(e) => Err(e),
            Ok((bootstrap_methods, rest)) =>
                Ok((AttributeTypeView::BootstrapMethods { bootstrap_methods }, rest)),
        },
        AttributeKind::MethodParameters => match parse_table8::<MethodParameter>(s) {
            Err(e) => Err(e),
            Ok((parameters, rest)) =>
                Ok((AttributeTypeView::MethodParameters { parameters }, rest)),
        },
    }
}

/// The part of a code attribute that holds no attributes: the sizes of the
/// frame, the bytecode and the exception table.
pub struct CodeHead {
    pub max_stack: u16,
    pub max_locals: u16,
    pub code: Seq<u8>,
    pub exception_table: Seq<Exception>,
}

/// The head of the code attribute that the bytes start with.
#[verifier::opaque]
pub open spec fn parse_code_head(s: Seq<u8>) -> Parsed<CodeHead> {
    match parse_u16(s) {
        Err(e) => Err(e),
        Ok((max_stack, s1)) => match parse_u16(s1) {
            Err(e) => Err(e),
            Ok((max_locals, s2)) => match parse_u32(s2) {
                Err(e) => Err(e),
                Ok((code_length, s3)) => match parse_bytes(s3, code_length as nat) {
                    Err(e) => Err(e),
                    Ok((code, s4)) => match parse_table16::<Exception>(s4) {
                        Err(e) => Err(e),
                        Ok((exception_table, rest)) => Ok(
                            (CodeHead { max_stack, max_locals, code, exception_table }, rest),
                        ),
                    },
                },
            },
        },
    }
}

/// The code attribute that the bytes start with. (The head never leaves more
/// bytes than it was given; the test of that lets the definition be seen to
/// end.)
pub open spec fn parse_code(s: Seq<u8>, pool: Seq<ConstantView>) -> Parsed<CodeAttributeView>
    decreases s.len(), 1nat, 0nat,
{
    match parse_code_head(s) {
        Err(e) => Err(e),
        Ok((head, s1)) => if s1.len() > s.len() {
            Err(ErrorView::InvalidLength)
        } else {
            match parse_u16(s1) {
                Err(e) => Err(e),
                Ok((n, s2)) => match parse_attributes(s2, n as nat, pool) {
                    Err(e) => Err(e),
                    Ok((attributes, rest)) => Ok(
                        (
                            CodeAttributeView {
                                max_stack: head.max_stack,
                                max_locals: head.max_locals,
                                code: head.code,
                                exception_table: head.exception_table,
                                attributes,
                            },
                            rest,
                        ),
                    ),
                },
            }
        },
    }
}

/// `n` attributes one after the other.
pub open spec fn parse_attributes(s: Seq<u8>, n: nat, pool: Seq<ConstantView>) -> Parsed<
    Seq<AttributeView>,
>
    decreases s.len(), 0nat, n,
{
    if n == 0 {
        Ok((Seq::empty(), s))
    } else {
        match parse_frame(s, pool) {
            Err(e) => Err(e),
            Ok((frame, s1)) => match parse_payload(frame.kind, frame.payload, pool) {
                Err(e) => Err(e),
                Ok(attr_type) => match parse_attributes(s1, (n - 1) as nat, pool) {
                    Err(e) => Err(e),
                    Ok((others, rest)) => Ok(
                        (
                            seq![
                                AttributeView {
                                    attribute_name_index: frame.name_index,
                                    attribute_length: frame.length,
                                    attr_type,
                                },
                            ] + others,
                            rest,
                        ),
                    ),
                },
            },
        }
    }
}

/// A table of attributes with its 16-bit count in front.
#[verifier::opaque]
pub open spec fn parse_attribute_table(s: Seq<u8>, pool: Seq<ConstantView>) -> Parsed<
    Seq<AttributeView>,
> {
    match parse_u16(s) {
        Err(e) => Err(e),
        Ok((n, s1)) => parse_attributes(s1, n as nat, pool),
    }
}

/// The bytes of an attribute: the name index, the length of the payload, and
/// the payload. The declared length is not consulted. A payload of more than
/// 4294967295 bytes has no length to be written with.
pub open spec fn wire_attribute(v: AttributeView) -> Wired
    decreases v, 0nat,
{
    match wire_body(v.attr_type) {
        Err(e) => Err(e),
        Ok(payload) => if payload.len() > 4294967295 {
            Err(ErrorView::InvalidLength)
        } else {
            Ok(bytes_u16(v.attribute_name_index) + (bytes_u32(payload.len() as u32) + payload))
        },
    }
}

/// The bytes of a payload.
pub open spec fn wire_body(t: AttributeTypeView) -> Wired
    decreases t, 0nat,
{
    match t {
        AttributeTypeView::Code { code } => wire_code(code),
        _ => wire_plain(t),
    }
}

/// The bytes of a payload that holds no attributes of its own. (A code
/// attribute does: it is not written here.)
#[verifier::opaque]
pub open spec fn wire_plain(t: AttributeTypeView) -> Wired {
    match t {
        AttributeTypeView::ConstantValue { constant_value_index } =>
            Ok(bytes_u16(constant_value_index)),
        AttributeTypeView::Code { .. } => Err(ErrorView::InvalidLength),
        AttributeTypeView::StackMapTable { entries } => wire_table16::<StackMap>(entries),
        AttributeTypeView::Exceptions { exception_index_table } =>
            wire_table16::<u16>(exception_index_table),
        AttributeTypeView::InnerClasses { classes } => wire_table16::<InnerClass>(classes),
        AttributeTypeView::EnclosingMethod { class_index, method_index } =>
            Ok(bytes_u16(class_index) + bytes_u16(method_index)),
        AttributeTypeView::Synthetic => Ok(Seq::empty()),
        AttributeTypeView::Signature { signature_index } => Ok(bytes_u16(signature_index)),
        AttributeTypeView::SourceFile { sourcefile_index } => Ok(bytes_u16(sourcefile_index)),
        AttributeTypeView::SourceDebugExtension { debug_extension } => Ok(debug_extension),
        AttributeTypeView::LineNumberTable { line_number_table } =>
            wire_table16::<LineNumber>(line_number_table),
        AttributeTypeView::LocalVariableTable { local_variable_table } =>
            wire_table16::<LocalVariable>(local_variable_table),
        AttributeTypeView::LocalVariableTypeTable { local_variable_type_table } =>
            wire_table16::<LocalVariableType>(local_variable_type_table),
        AttributeTypeView::Deprecated => Ok(Seq::empty()),
        AttributeTypeView::RuntimeVisibleAnnotations { annotations } =>
            wire_table16::<Annotation>(annotations),
        AttributeTypeView::RuntimeInvisibleAnnotations { annotations } =>
            wire_table16::<Annotation>(annotations),
        AttributeTypeView::RuntimeVisibleParameterAnnotations { parameter_annotations } =>
            wire_table8::<ParameterAnnotation>(parameter_annotations),
        AttributeTypeView::RuntimeInvisibleParameterAnnotations { parameter_annotations } =>
            wire_table8::<ParameterAnnotation>(parameter_annotations),
        AttributeTypeView::RuntimeVisibleTypeAnnotations { annotations } =>
            wire_table16::<TypeAnnotation>(annotations),
        AttributeTypeView::RuntimeInvisibleTypeAnnotations { annotations } =>
            wire_table16::<TypeAnnotation>(annotations),
        AttributeTypeView::AnnotationDefault { default_value } => ElementValue::wire(default_value),
        AttributeTypeView::BootstrapMethods { bootstrap_methods } =>
            wire_table16::<BootstrapMethod>(bootstrap_methods),
        AttributeTypeView::MethodParameters { parameters } =>
            wire_table8::<MethodParameter>(parameters),
    }
}

/// The bytes of the head of a code attribute. Bytecode of more than
/// 4294967295 bytes has no length to be written with.
#[verifier::opaque]
pub open spec fn wire_code_head(c: CodeAttributeView) -> Wired {
    if c.code.len() > 4294967295 {
        Err(ErrorView::InvalidLength)
    } else {
        join(
            Ok(
                bytes_u16(c.max_stack) + (bytes_u16(c.max_locals) + (bytes_u32(c.code.len() as u32)
                    + c.code)),
            ),
            wire_table16::<Exception>(c.exception_table),
        )
    }
}

/// The bytes of a code attribute: its head, the 16-bit count of its
/// attributes, and the attributes. More than 65535 attributes have no count.
pub open spec fn wire_code(c: CodeAttributeView) -> Wired
    decreases c, 0nat,
{
    join(
        wire_code_head(c),
        if c.attributes.len() > 65535 {
            Err(ErrorView::InvalidLength)
        } else {
            join(Ok(bytes_u16(c.attributes.len() as u16)), wire_attributes(c.attributes))
        },
    )
}

/// The bytes of a table of attributes with its 16-bit count in front. A table
/// of more than 65535 attributes has none.
#[verifier::opaque]
pub open spec fn wire_attribute_table(list: Seq<AttributeView>) -> Wired {
    if list.len() > 65535 {
        Err(ErrorView::InvalidLength)
    } else {
        join(Ok(bytes_u16(list.len() as u16)), wire_attributes(list))
    }
}

/// The bytes of attributes one after the other.
pub open spec fn wire_attributes(list: Seq<AttributeView>) -> Wired
    decreases list, 0nat,
{
    if list.len() == 0 {
        Ok(Seq::empty())
    } else {
        join(wire_attribute(list[0]), wire_attributes(list.skip(1)))
    }
}

} // verus!
