//! Encoding attributes onto the end of a byte vector.

use vstd::prelude::*;
use crate::attribute::annotation::{Annotation, ElementValue, ParameterAnnotation};
use crate::attribute::records::{
    BootstrapMethod, Exception, InnerClass, LineNumber, LocalVariable, LocalVariableType,
    MethodParameter,
};
use crate::attribute::stack_map::StackMap;
use crate::attribute::type_annotation::TypeAnnotation;
use crate::attribute::{
    lemma_code_view, wire_attribute, wire_attribute_table, wire_attributes, wire_body, wire_code,
    wire_code_head, wire_plain, Attribute, AttributeType, AttributeView, CodeAttribute,
};
use crate::codec::{behind, wire_table16, write_table16, write_table8, Wire};
use crate::error::Error;
use crate::error::ErrorView;
use crate::wire::{bytes_u16, bytes_u32, encodes, push_bytes, push_u16, push_u32, settle};

verus! {

proof fn lemma_wire_attributes_step(done: Seq<u8>, list: Seq<AttributeView>, i: int)
    requires
        0 <= i < list.len(),
    ensures
        match wire_attribute(list[i]) {
            Err(e) => behind(done, wire_attributes(list.skip(i))) == Err::<Seq<u8>, ErrorView>(e),
            Ok(bytes) => behind(done, wire_attributes(list.skip(i))) == behind(
                done + bytes,
                wire_attributes(list.skip(i + 1)),
            ),
        },
{
    let here = list.skip(i);
    assert(here[0] == list[i]);
    assert(here.skip(1) =~= list.skip(i + 1));
    match wire_attribute(list[i]) {
        Err(e) => {},
        Ok(bytes) => {
            match wire_attributes(list.skip(i + 1)) {
                Err(e) => {},
                Ok(others) => {
                    assert(done + (bytes + others) =~= (done + bytes) + others);
                },
            }
        },
    }
}

/// Appends the bytes of an attribute and returns how many they are. An
/// attribute that has no bytes leaves `out` as it was.
pub fn encode_attribute(a: &Attribute, out: &mut Vec<u8>) -> (r: Result<usize, Error>)
    ensures
        encodes(r, old(out)@, final(out)@, wire_attribute(a.deep_view())),
        r is Err ==> final(out)@ == old(out)@,
    decreases *a,
{
    let start = out.len();
    let mut payload: Vec<u8> = Vec::new();
    write_body(&a.attr_type, &mut payload)?;
    if payload.len() > 4294967295 {
        return Err(Error::InvalidLength);
    }
    push_u16(out, a.attribute_name_index);
    push_u32(out, payload.len() as u32);
    push_bytes(out, &payload);
    proof {
        assert(payload@ =~= wire_body(a.attr_type.deep_view())->Ok_0);
        assert(out@ =~= old(out)@ + (bytes_u16(a.attribute_name_index) + (bytes_u32(
            payload@.len() as u32,
        ) + payload@)));
    }
    Ok(out.len() - start)
}

impl<'a> crate::TryInto<&'a mut Vec<u8>, usize> for Attribute {
    type Error = Error;

    fn try_into_buf(&self, out: &'a mut Vec<u8>) -> (r: Result<usize, Error>)
        ensures
            encodes(r, old(out)@, final(out)@, wire_attribute(self.deep_view())),
            r is Err ==> final(out)@ == old(out)@,
    {
        encode_attribute(self, out)
    }
}

impl<'a> crate::TryInto<&'a mut Vec<u8>, usize> for CodeAttribute {
    type Error = Error;

    fn try_into_buf(&self, out: &'a mut Vec<u8>) -> (r: Result<usize, Error>)
        ensures
            encodes(r, old(out)@, final(out)@, wire_code(self.deep_view())),
            r is Err ==> final(out)@ == old(out)@,
    {
        encode_code(self, out)
    }
}

/// Appends the bytes of a payload and returns how many they are. A payload
/// that has no bytes leaves `out` as it was.
pub fn encode_body(t: &AttributeType, out: &mut Vec<u8>) -> (r: Result<usize, Error>)
    ensures
        encodes(r, old(out)@, final(out)@, wire_body(t.deep_view())),
        r is Err ==> final(out)@ == old(out)@,
{
    let start = out.len();
    let r = write_body(t, out);
    settle(out, start, r)
}

/// Appends the bytes of a code attribute and returns how many they are. A
/// code attribute that has no bytes leaves `out` as it was.
pub fn encode_code(c: &CodeAttribute, out: &mut Vec<u8>) -> (r: Result<usize, Error>)
    ensures
        encodes(r, old(out)@, final(out)@, wire_code(c.deep_view())),
        r is Err ==> final(out)@ == old(out)@,
{
    let start = out.len();
    let r = write_code(c, out);
    settle(out, start, r)
}

/// Appends a table of attributes with its 16-bit count in front and returns
/// how many bytes that took. A table that has no bytes leaves `out` as it was.
pub fn encode_attribute_table(list: &Vec<Attribute>, out: &mut Vec<u8>) -> (r: Result<
    usize,
    Error,
>)
    ensures
        encodes(r, old(out)@, final(out)@, wire_attribute_table(list.deep_view())),
        r is Err ==> final(out)@ == old(out)@,
{
    let start = out.len();
    let r = write_attribute_table(list, out);
    settle(out, start, r)
}

/// Appends the bytes of a payload and returns how many they are. Where the
/// payload has no bytes, `out` may have grown by a part of them.
pub fn write_body(t: &AttributeType, out: &mut Vec<u8>) -> (r: Result<usize, Error>)
    ensures
        encodes(r, old(out)@, final(out)@, wire_body(t.deep_view())),
    decreases *t,
{
    match t {
        AttributeType::Code { code } => write_code(code, out),
        _ => write_plain(t, out),
    }
}

fn write_plain(t: &AttributeType, out: &mut Vec<u8>) -> (r: Result<usize, Error>)
    requires
        !(t is Code),
    ensures
        encodes(r, old(out)@, final(out)@, wire_plain(t.deep_view())),
{
    proof {
        reveal(wire_plain);
    }
    let start = out.len();
    match t {
        AttributeType::ConstantValue { constant_value_index } => {
            push_u16(out, *constant_value_index);
        },
        AttributeType::Code { .. } => {
            return Err(Error::InvalidLength);
        },
        AttributeType::StackMapTable { entries } => {
            write_table16::<StackMap>(entries, out)?;
        },
        AttributeType::Exceptions { exception_index_table } => {
            write_table16::<u16>(exception_index_table, out)?;
        },
        AttributeType::InnerClasses { classes } => {
            write_table16::<InnerClass>(classes, out)?;
        },
        AttributeType::EnclosingMethod { class_index, method_index } => {
            push_u16(out, *class_index);
            push_u16(out, *method_index);
            proof {
                assert(out@ =~= old(out)@ + (bytes_u16(*class_index) + bytes_u16(*method_index)));
            }
        },
        AttributeType::Synthetic => {
            proof {
                assert(out@ =~= old(out)@ + Seq::<u8>::empty());
            }
        },
        AttributeType::Signature { signature_index } => {
            push_u16(out, *signature_index);
        },
        AttributeType::SourceFile { sourcefile_index } => {
            push_u16(out, *sourcefile_index);
        },
        AttributeType::SourceDebugExtension { debug_extension } => {
            push_bytes(out, debug_extension);
            proof {
                assert(debug_extension.deep_view() =~= debug_extension@);
            }
        },
        AttributeType::LineNumberTable { line_number_table } => {
            write_table16::<LineNumber>(line_number_table, out)?;
        },
        AttributeType::LocalVariableTable { local_variable_table } => {
            write_table16::<LocalVariable>(local_variable_table, out)?;
        },
        AttributeType::LocalVariableTypeTable { local_variable_type_table } => {
            write_table16::<LocalVariableType>(local_variable_type_table, out)?;
        },
        AttributeType::Deprecated => {
            proof {
                assert(out@ =~= old(out)@ + Seq::<u8>::empty());
            }
        },
        AttributeType::RuntimeVisibleAnnotations { annotations } => {
            write_table16::<Annotation>(annotations, out)?;
        },
        AttributeType::RuntimeInvisibleAnnotations { annotations } => {
            write_table16::<Annotation>(annotations, out)?;
        },
        AttributeType::RuntimeVisibleParameterAnnotations { parameter_annotations } => {
            write_table8::<ParameterAnnotation>(parameter_annotations, out)?;
        },
        AttributeType::RuntimeInvisibleParameterAnnotations { parameter_annotations } => {
            write_table8::<ParameterAnnotation>(parameter_annotations, out)?;
        },
        AttributeType::RuntimeVisibleTypeAnnotations { annotations } => {
            write_table16::<TypeAnnotation>(annotations, out)?;
        },
        AttributeType::RuntimeInvisibleTypeAnnotations { annotations } => {
            write_table16::<TypeAnnotation>(annotations, out)?;
        },
        AttributeType::AnnotationDefault { default_value } => {
            default_value.write(out)?;
        },
        AttributeType::BootstrapMethods { bootstrap_methods } => {
            write_table16::<BootstrapMethod>(bootstrap_methods, out)?;
        },
        AttributeType::MethodParameters { parameters } => {
            write_table8::<MethodParameter>(parameters, out)?;
        },
    }
    Ok(out.len() - start)
}

fn write_code_head(c: &CodeAttribute, out: &mut Vec<u8>) -> (r: Result<usize, Error>)
    ensures
        encodes(r, old(out)@, final(out)@, wire_code_head(c.deep_view())),
{
    let start = out.len();
    proof {
        reveal(wire_code_head);
        assert(c.code.deep_view() =~= c.code@);
    }
    if c.code.len() > 4294967295 {
        return Err(Error::InvalidLength);
    }
    push_u16(out, c.max_stack);
    push_u16(out, c.max_locals);
    push_u32(out, c.code.len() as u32);
    push_bytes(out, &c.code);
    let ghost head = bytes_u16(c.max_stack) + (bytes_u16(c.max_locals) + (bytes_u32(
        c.code@.len() as u32,
    ) + c.code@));
    proof {
        assert(out@ =~= old(out)@ + head);
    }
    write_table16::<Exception>(&c.exception_table, out)?;
    proof {
        let rows = wire_table16::<Exception>(c.exception_table.deep_view())->Ok_0;
        assert(out@ =~= old(out)@ + (head + rows));
    }
    Ok(out.len() - start)
}

/// Appends the bytes of a code attribute and returns how many they are.
/// Where the code attribute has no bytes, `out` may have grown by a part of
/// them.
pub fn write_code(c: &CodeAttribute, out: &mut Vec<u8>) -> (r: Result<usize, Error>)
    ensures
        encodes(r, old(out)@, final(out)@, wire_code(c.deep_view())),
    decreases *c,
{
    let start = out.len();
    proof {
        reveal(wire_attribute_table);
        lemma_code_view(*c);
    }
    write_code_head(c, out)?;
    write_attribute_table(&c.attributes, out)?;
    proof {
        let v = c.deep_view();
        let head = wire_code_head(v)->Ok_0;
        let nested = wire_attribute_table(v.attributes)->Ok_0;
        assert(out@ =~= old(out)@ + (head + nested));
    }
    Ok(out.len() - start)
}

/// Appends a table of attributes with its 16-bit count in front and returns
/// how many bytes that took. Where an attribute has no bytes, `out` may have
/// grown by what came before it.
pub fn write_attribute_table(list: &Vec<Attribute>, out: &mut Vec<u8>) -> (r: Result<
    usize,
    Error,
>)
    ensures
        encodes(r, old(out)@, final(out)@, wire_attribute_table(list.deep_view())),
    decreases *list,
{
    proof {
        reveal(wire_attribute_table);
    }
    if list.len() > 65535 {
        return Err(Error::InvalidLength);
    }
    let start = out.len();
    push_u16(out, list.len() as u16);
    let ghost done = Seq::<u8>::empty();
    let ghost head = out@;
    let ghost view = list.deep_view();
    let mut i: usize = 0;
    proof {
        assert(view.skip(0) =~= view);
        match wire_attributes(view) {
            Ok(all) => {
                assert(done + all =~= all);
            },
            Err(e) => {},
        }
        assert(out@ =~= head + done);
    }
    while i < list.len()
        invariant
            i <= list.len(),
            list.len() <= 65535,
            view == list.deep_view(),
            head == old(out)@ + bytes_u16(list.len() as u16),
            out@ == head + done,
            wire_attributes(view) == behind(done, wire_attributes(view.skip(i as int))),
        decreases list.len() - i,
    {
        proof {
            reveal(wire_attribute_table);
            lemma_wire_attributes_step(done, view, i as int);
            assert(view[i as int] == list@[i as int].deep_view());
        }
        encode_attribute(&list[i], out)?;
        proof {
            let bytes = wire_attribute(view[i as int])->Ok_0;
            assert(out@ =~= head + (done + bytes));
            done = done + bytes;
        }
        i += 1;
    }
    proof {
        reveal(wire_attribute_table);
        assert(view.skip(list.len() as int) =~= Seq::<AttributeView>::empty());
        assert(done + Seq::<u8>::empty() =~= done);
        assert(out@ =~= old(out)@ + (bytes_u16(list.len() as u16) + done));
    }
    Ok(out.len() - start)
}

} // verus!
