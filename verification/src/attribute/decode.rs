//! Decoding attributes from a byte cursor.

use vstd::prelude::*;
use bytes::BytesMut;
use crate::attribute::annotation::{Annotation, ElementValue, ParameterAnnotation};
use crate::attribute::kind::AttributeKind;
use crate::attribute::records::{
    BootstrapMethod, Exception, InnerClass, LineNumber, LocalVariable, LocalVariableType,
    MethodParameter,
};
use crate::attribute::stack_map::StackMap;
use crate::attribute::type_annotation::TypeAnnotation;
use crate::attribute::{
    lemma_code_view, parse_attribute, parse_attribute_table, parse_attributes, parse_body,
    parse_code, parse_code_head, parse_frame, parse_payload, parse_plain, Attribute,
    AttributeType, AttributeView, CodeAttribute,
};
use crate::codec::{after, read_table16, read_table8, Wire};
use crate::constant::{get_utf8, Constant, ConstantView};
use crate::error::Error;
use crate::error::ErrorView;
use crate::wire::{
    buf_remaining, decodes, read_exact, read_frame, read_u16, read_u32, unread,
};

verus! {

proof fn lemma_parse_attributes_step(
    done: Seq<AttributeView>,
    s: Seq<u8>,
    n: nat,
    pool: Seq<ConstantView>,
)
    requires
        n > 0,
    ensures
        match parse_attribute(s, pool) {
            Err(e) => after(done, parse_attributes(s, n, pool)) == Err::<
                (Seq<AttributeView>, Seq<u8>),
                ErrorView,
            >(e),
            Ok((first, s1)) => after(done, parse_attributes(s, n, pool)) == after(
                done.push(first),
                parse_attributes(s1, (n - 1) as nat, pool),
            ),
        },
{
    reveal(parse_attribute);
    match parse_attribute(s, pool) {
        Err(e) => {},
        Ok((first, s1)) => {
            match parse_attributes(s1, (n - 1) as nat, pool) {
                Err(e) => {},
                Ok((others, rest)) => {
                    assert(done + (seq![first] + others) =~= done.push(first) + others);
                },
            }
        },
    }
}

/// Reads one attribute, its name looked up in `pool`.
pub fn decode_attribute(buf: &mut BytesMut, pool: &Vec<Constant>) -> (r: Result<Attribute, Error>)
    ensures
        decodes(
            r,
            unread(*old(buf)),
            unread(*final(buf)),
            parse_attribute(unread(*old(buf)), pool.deep_view()),
        ),
    decreases unread(*old(buf)).len(), 0nat,
{
    proof {
        reveal(parse_attribute);
    }
    let attribute_name_index = read_u16(buf)?;
    let attribute_length = read_u32(buf)?;
    let kind = match get_utf8(pool, attribute_name_index as usize) {
        None => {
            return Err(Error::MismatchConstantType);
        },
        Some(name) => match AttributeKind::from_name(name) {
            None => {
                return Err(Error::InvalidAttributeName(name.clone()));
            },
            Some(kind) => kind,
        },
    };
    let mut payload = read_frame(buf, attribute_length as usize)?;
    let attr_type = decode_payload(kind, &mut payload, pool)?;
    Ok(Attribute { attribute_name_index, attribute_length, attr_type })
}

impl<'a> crate::TryFromCp<&'a mut BytesMut> for Attribute {
    type Error = Error;

    fn try_from_cp(buf: &'a mut BytesMut, constant_pool: &crate::ConstantPoolRef) -> (r: Result<
        Attribute,
        Error,
    >)
        ensures
            decodes(
                r,
                unread(*old(buf)),
                unread(*final(buf)),
                parse_attribute(unread(*old(buf)), constant_pool.deep_view()),
            ),
    {
        decode_attribute(buf, constant_pool)
    }
}

impl<'a> crate::TryFromCp<&'a mut BytesMut> for CodeAttribute {
    type Error = Error;

    fn try_from_cp(buf: &'a mut BytesMut, constant_pool: &crate::ConstantPoolRef) -> (r: Result<
        CodeAttribute,
        Error,
    >)
        ensures
            decodes(
                r,
                unread(*old(buf)),
                unread(*final(buf)),
                parse_code(unread(*old(buf)), constant_pool.deep_view()),
            ),
    {
        decode_code(buf, constant_pool)
    }
}

/// Reads the payload of an attribute of the given kind from a buffer that
/// holds the payload and nothing else.
pub fn decode_payload(kind: AttributeKind, buf: &mut BytesMut, pool: &Vec<Constant>) -> (r: Result<
    AttributeType,
    Error,
>)
    ensures
        match parse_payload(kind, unread(*old(buf)), pool.deep_view()) {
            Ok(attr_type) => r is Ok && r->Ok_0.deep_view() == attr_type,
            Err(e) => r is Err && r->Err_0@ == e,
        },
    decreases unread(*old(buf)).len(), 3nat,
{
    let attr_type = decode_body(kind, buf, pool)?;
    if buf_remaining(buf) != 0 {
        return Err(Error::InvalidLength);
    }
    Ok(attr_type)
}

fn decode_body(kind: AttributeKind, buf: &mut BytesMut, pool: &Vec<Constant>) -> (r: Result<
    AttributeType,
    Error,
>)
    ensures
        decodes(
            r,
            unread(*old(buf)),
            unread(*final(buf)),
            parse_body(kind, unread(*old(buf)), pool.deep_view()),
        ),
    decreases unread(*old(buf)).len(), 2nat,
{
    match kind {
        AttributeKind::Code => {
            let code = decode_code(buf, pool)?;
            Ok(AttributeType::Code { code })
        },
        _ => decode_plain(kind, buf),
    }
}

fn decode_plain(kind: AttributeKind, buf: &mut BytesMut) -> (r: Result<AttributeType, Error>)
    requires
        kind != AttributeKind::Code,
    ensures
        decodes(r, unread(*old(buf)), unread(*final(buf)), parse_plain(kind, unread(*old(buf)))),
{
    proof {
        reveal(parse_plain);
    }
    match kind {
        AttributeKind::ConstantValue => {
            let constant_value_index = read_u16(buf)?;
            Ok(AttributeType::ConstantValue { constant_value_index })
        },
        AttributeKind::Code => Err(Error::InvalidLength),
        AttributeKind::StackMapTable => {
            let entries = read_table16::<StackMap>(buf)?;
            Ok(AttributeType::StackMapTable { entries })
        },
        AttributeKind::Exceptions => {
            let exception_index_table = read_table16::<u16>(buf)?;
            Ok(AttributeType::Exceptions { exception_index_table })
        },
        AttributeKind::InnerClasses => {
            let classes = read_table16::<InnerClass>(buf)?;
            Ok(AttributeType::InnerClasses { classes })
        },
        AttributeKind::EnclosingMethod => {
            let class_index = read_u16(buf)?;
            let method_index = read_u16(buf)?;
            Ok(AttributeType::EnclosingMethod { class_index, method_index })
        },
        AttributeKind::Synthetic => Ok(AttributeType::Synthetic),
        AttributeKind::Signature => {
            let signature_index = read_u16(buf)?;
            Ok(AttributeType::Signature { signature_index })
        },
        AttributeKind::SourceFile => {
            let sourcefile_index = read_u16(buf)?;
            Ok(AttributeType::SourceFile { sourcefile_index })
        },
        AttributeKind::SourceDebugExtension => {
            let n = buf_remaining(buf);
            let debug_extension = read_exact(buf, n)?;
            proof {
                let s = unread(*old(buf));
                assert(s.take(n as int) =~= s);
                assert(s.skip(n as int) =~= Seq::<u8>::empty());
            }
            Ok(AttributeType::SourceDebugExtension { debug_extension })
        },
        AttributeKind::LineNumberTable => {
            let line_number_table = read_table16::<LineNumber>(buf)?;
            Ok(AttributeType::LineNumberTable { line_number_table })
        },
        AttributeKind::LocalVariableTable => {
            let local_variable_table = read_table16::<LocalVariable>(buf)?;
            Ok(AttributeType::LocalVariableTable { local_variable_table })
        },
        AttributeKind::LocalVariableTypeTable => {
            let local_variable_type_table = read_table16::<LocalVariableType>(buf)?;
            Ok(AttributeType::LocalVariableTypeTable { local_variable_type_table })
        },
        AttributeKind::Deprecated => Ok(AttributeType::Deprecated),
        AttributeKind::RuntimeVisibleAnnotations => {
            let annotations = read_table16::<Annotation>(buf)?;
            Ok(AttributeType::RuntimeVisibleAnnotations { annotations })
        },
        AttributeKind::RuntimeInvisibleAnnotations => {
            let annotations = read_table16::<Annotation>(buf)?;
            Ok(AttributeType::RuntimeInvisibleAnnotations { annotations })
        },
        AttributeKind::RuntimeVisibleParameterAnnotations => {
            let parameter_annotations = read_table8::<ParameterAnnotation>(buf)?;
            Ok(AttributeType::RuntimeVisibleParameterAnnotations { parameter_annotations })
        },
        AttributeKind::RuntimeInvisibleParameterAnnotations => {
            let parameter_annotations = read_table8::<ParameterAnnotation>(buf)?;
            Ok(AttributeType::RuntimeInvisibleParameterAnnotations { parameter_annotations })
        },
        AttributeKind::RuntimeVisibleTypeAnnotations => {
            let annotations = read_table16::<TypeAnnotation>(buf)?;
            Ok(AttributeType::RuntimeVisibleTypeAnnotations { annotations })
        },
        AttributeKind::RuntimeInvisibleTypeAnnotations => {
            let annotations = read_table16::<TypeAnnotation>(buf)?;
            Ok(AttributeType::RuntimeInvisibleTypeAnnotations { annotations })
        },
        AttributeKind::AnnotationDefault => {
            let default_value = ElementValue::decode(buf)?;
            Ok(AttributeType::AnnotationDefault { default_value })
        },
        AttributeKind::BootstrapMethods => {
            let bootstrap_methods = read_table16::<BootstrapMethod>(buf)?;
            Ok(AttributeType::BootstrapMethods { bootstrap_methods })
        },
        AttributeKind::MethodParameters => {
            let parameters = read_table8::<MethodParameter>(buf)?;
            Ok(AttributeType::MethodParameters { parameters })
        },
    }
}

fn decode_code_head(buf: &mut BytesMut) -> (r: Result<(u16, u16, Vec<u8>, Vec<Exception>), Error>)
    ensures
        unread(*final(buf)).len() <= unread(*old(buf)).len(),
        match parse_code_head(unread(*old(buf))) {
            Ok((head, rest)) => r is Ok && r->Ok_0.0 == head.max_stack && r->Ok_0.1
                == head.max_locals && r->Ok_0.2@ == head.code && r->Ok_0.3.deep_view()
                == head.exception_table && unread(*final(buf)) == rest,
            Err(e) => r is Err && r->Err_0@ == e,
        },
{
    proof {
        reveal(parse_code_head);
    }
    let max_stack = read_u16(buf)?;
    let max_locals = read_u16(buf)?;
    let code_length = read_u32(buf)?;
    let code = read_exact(buf, code_length as usize)?;
    proof {
        assert(code.deep_view() =~= code@);
    }
    let exception_table = read_table16::<Exception>(buf)?;
    Ok((max_stack, max_locals, code, exception_table))
}

/// Reads one code attribute, the names of its attributes looked up in `pool`.
pub fn decode_code(buf: &mut BytesMut, pool: &Vec<Constant>) -> (r: Result<CodeAttribute, Error>)
    ensures
        decodes(
            r,
            unread(*old(buf)),
            unread(*final(buf)),
            parse_code(unread(*old(buf)), pool.deep_view()),
        ),
    decreases unread(*old(buf)).len(), 1nat,
{
    let (max_stack, max_locals, code, exception_table) = decode_code_head(buf)?;
    let n = read_u16(buf)?;
    let attributes = decode_attributes(buf, n as usize, pool)?;
    let c = CodeAttribute {
        max_stack,
        max_locals,
        code: std::sync::Arc::new(code),
        exception_table,
        attributes,
    };
    proof {
        lemma_code_view(c);
        assert(c.code.deep_view() =~= code@);
    }
    Ok(c)
}

/// Reads a table of attributes with its 16-bit count in front.
pub fn decode_attribute_table(buf: &mut BytesMut, pool: &Vec<Constant>) -> (r: Result<
    Vec<Attribute>,
    Error,
>)
    ensures
        decodes(
            r,
            unread(*old(buf)),
            unread(*final(buf)),
            parse_attribute_table(unread(*old(buf)), pool.deep_view()),
        ),
{
    proof {
        reveal(parse_attribute_table);
    }
    let n = read_u16(buf)?;
    decode_attributes(buf, n as usize, pool)
}

fn decode_attributes(buf: &mut BytesMut, n: usize, pool: &Vec<Constant>) -> (r: Result<
    Vec<Attribute>,
    Error,
>)
    ensures
        decodes(
            r,
            unread(*old(buf)),
            unread(*final(buf)),
            parse_attributes(unread(*old(buf)), n as nat, pool.deep_view()),
        ),
    decreases unread(*old(buf)).len(), 1nat,
{
    let mut list: Vec<Attribute> = Vec::new();
    let mut i: usize = 0;
    proof {
        assert(list.deep_view() =~= Seq::<AttributeView>::empty());
        match parse_attributes(unread(*buf), n as nat, pool.deep_view()) {
            Ok((all, rest)) => {
                assert(Seq::<AttributeView>::empty() + all =~= all);
            },
            Err(e) => {},
        }
    }
    while i < n
        invariant
            i <= n,
            unread(*buf).len() <= unread(*old(buf)).len(),
            parse_attributes(unread(*old(buf)), n as nat, pool.deep_view()) == after(
                list.deep_view(),
                parse_attributes(unread(*buf), (n - i) as nat, pool.deep_view()),
            ),
        decreases n - i,
    {
        proof {
            lemma_parse_attributes_step(
                list.deep_view(),
                unread(*buf),
                (n - i) as nat,
                pool.deep_view(),
            );
        }
        let ghost done = list.deep_view();
        let attribute = decode_attribute(buf, pool)?;
        let ghost shown = attribute.deep_view();
        list.push(attribute);
        proof {
            assert(list.deep_view() =~= done.push(shown));
        }
        i += 1;
    }
    proof {
        assert(list.deep_view() + Seq::<AttributeView>::empty() =~= list.deep_view());
    }
    Ok(list)
}

} // verus!
