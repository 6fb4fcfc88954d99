//! The laws of the attribute codec: decoding inverts encoding.

use vstd::prelude::*;
use crate::attribute::annotation::{Annotation, ElementValue, ParameterAnnotation};
use crate::attribute::records::{
    BootstrapMethod, Exception, InnerClass, LineNumber, LocalVariable, LocalVariableType,
    MethodParameter,
};
use crate::attribute::stack_map::StackMap;
use crate::attribute::type_annotation::TypeAnnotation;
use crate::attribute::kind::AttributeKind;
use crate::attribute::{
    parse_attribute, parse_attribute_table, parse_attributes, parse_body, parse_code,
    parse_code_head, parse_frame, parse_payload, parse_plain, wire_attribute,
    wire_attribute_table, wire_attributes, wire_body, wire_code, wire_code_head, wire_plain,
    AttributeTypeView, AttributeView, CodeAttributeView, CodeHead, Frame,
};
use crate::codec::{
    lemma_table16_exact, lemma_table16_round_trip, lemma_table8_exact, lemma_table8_round_trip,
    wire_table16, Wire,
};
use crate::constant::{pool_utf8, ConstantView};
use crate::error::ErrorView;
use crate::wire::{
    bytes_u16, bytes_u32, lemma_bytes_exact, lemma_bytes_prefix, lemma_bytes_round_trip,
    lemma_concat_assoc, lemma_u16_exact, lemma_u16_prefix, lemma_u16_round_trip, lemma_u32_exact,
    lemma_u32_prefix, lemma_u32_round_trip, parse_bytes, parse_u16, parse_u32,
};

verus! {

/// The name index of an attribute leads, in this pool, to the name of its
/// payload's kind.
pub open spec fn attribute_named(v: AttributeView, pool: Seq<ConstantView>) -> bool {
    pool_utf8(pool, v.attribute_name_index as int) == Some(v.attr_type.kind().name())
}

/// An attribute is as a decoder with this pool would hand it out: its name
/// index leads to the name of its payload's kind, its declared length is the
/// length of its payload, and the attributes nested in it are so too.
pub open spec fn attribute_canonical(v: AttributeView, pool: Seq<ConstantView>) -> bool
    decreases v, 0nat,
{
    &&& attribute_named(v, pool)
    &&& wire_body(v.attr_type) is Ok ==> v.attribute_length == wire_body(v.attr_type)->Ok_0.len()
    &&& body_canonical(v.attr_type, pool)
}

/// The attributes nested in a payload are as a decoder would hand them out.
pub open spec fn body_canonical(t: AttributeTypeView, pool: Seq<ConstantView>) -> bool
    decreases t, 0nat,
{
    match t {
        AttributeTypeView::Code { code } => attributes_canonical(code.attributes, pool),
        _ => true,
    }
}

/// Every attribute of the table is as a decoder would hand it out.
pub open spec fn attributes_canonical(list: Seq<AttributeView>, pool: Seq<ConstantView>) -> bool
    decreases list, 0nat,
{
    list.len() == 0 || (attribute_canonical(list[0], pool) && attributes_canonical(
        list.skip(1),
        pool,
    ))
}

/// Decoding the bytes of an attribute gives the attribute back, where the
/// attribute is as a decoder with this pool would hand it out.
pub proof fn lemma_attribute_round_trip(v: AttributeView, pool: Seq<ConstantView>, tail: Seq<u8>)
    requires
        wire_attribute(v) is Ok,
        attribute_canonical(v, pool),
    ensures
        parse_attribute(wire_attribute(v)->Ok_0 + tail, pool) == Ok::<
            (AttributeView, Seq<u8>),
            ErrorView,
        >((v, tail)),
    decreases v, 1nat,
{
    reveal(parse_attribute);
    let payload = wire_body(v.attr_type)->Ok_0;
    let s = wire_attribute(v)->Ok_0 + tail;
    let s2 = payload + tail;
    let s1 = bytes_u32(payload.len() as u32) + s2;
    assert(s =~= bytes_u16(v.attribute_name_index) + s1);
    lemma_u16_round_trip(v.attribute_name_index, s1);
    lemma_u32_round_trip(payload.len() as u32, s2);
    lemma_bytes_round_trip(payload, tail);
    v.attr_type.kind().lemma_name_found();
    lemma_payload_round_trip(v.attr_type, pool);
}

/// Decoding the bytes of a payload gives the payload back.
pub proof fn lemma_payload_round_trip(t: AttributeTypeView, pool: Seq<ConstantView>)
    requires
        wire_body(t) is Ok,
        body_canonical(t, pool),
    ensures
        parse_payload(t.kind(), wire_body(t)->Ok_0, pool) == Ok::<AttributeTypeView, ErrorView>(t),
    decreases t, 0nat,
{
    let bytes = wire_body(t)->Ok_0;
    let none = Seq::<u8>::empty();
    assert(bytes + none =~= bytes);
    match t {
        AttributeTypeView::Code { code } => {
            lemma_code_round_trip(code, pool, none);
        },
        _ => {
            lemma_plain_round_trip(t);
        },
    }
}

proof fn lemma_plain_round_trip(t: AttributeTypeView)
    requires
        !(t is Code),
        wire_plain(t) is Ok,
    ensures
        parse_plain(t.kind(), wire_plain(t)->Ok_0 + Seq::<u8>::empty()) == Ok::<
            (AttributeTypeView, Seq<u8>),
            ErrorView,
        >((t, Seq::<u8>::empty())),
{
    reveal(wire_plain);
    reveal(parse_plain);
    let none = Seq::<u8>::empty();
    match t {
        AttributeTypeView::ConstantValue { constant_value_index } => {
            lemma_u16_round_trip(constant_value_index, none);
        },
        AttributeTypeView::Code { .. } => {},
        AttributeTypeView::StackMapTable { entries } => {
            lemma_table16_round_trip::<StackMap>(entries, none);
        },
        AttributeTypeView::Exceptions { exception_index_table } => {
            lemma_table16_round_trip::<u16>(exception_index_table, none);
        },
        AttributeTypeView::InnerClasses { classes } => {
            lemma_table16_round_trip::<InnerClass>(classes, none);
        },
        AttributeTypeView::EnclosingMethod { class_index, method_index } => {
            lemma_concat_assoc(bytes_u16(class_index), bytes_u16(method_index), none);
            lemma_u16_round_trip(class_index, bytes_u16(method_index) + none);
            lemma_u16_round_trip(method_index, none);
        },
        AttributeTypeView::Synthetic => {
            assert(none + none =~= none);
        },
        AttributeTypeView::Signature { signature_index } => {
            lemma_u16_round_trip(signature_index, none);
        },
        AttributeTypeView::SourceFile { sourcefile_index } => {
            lemma_u16_round_trip(sourcefile_index, none);
        },
        AttributeTypeView::SourceDebugExtension { debug_extension } => {
            assert(debug_extension + none =~= debug_extension);
        },
        AttributeTypeView::LineNumberTable { line_number_table } => {
            lemma_table16_round_trip::<LineNumber>(line_number_table, none);
        },
        AttributeTypeView::LocalVariableTable { local_variable_table } => {
            lemma_table16_round_trip::<LocalVariable>(local_variable_table, none);
        },
        AttributeTypeView::LocalVariableTypeTable { local_variable_type_table } => {
            lemma_table16_round_trip::<LocalVariableType>(local_variable_type_table, none);
        },
        AttributeTypeView::Deprecated => {
            assert(none + none =~= none);
        },
        AttributeTypeView::RuntimeVisibleAnnotations { annotations } => {
            lemma_table16_round_trip::<Annotation>(annotations, none);
        },
        AttributeTypeView::RuntimeInvisibleAnnotations { annotations } => {
            lemma_table16_round_trip::<Annotation>(annotations, none);
        },
        AttributeTypeView::RuntimeVisibleParameterAnnotations { parameter_annotations } => {
            lemma_table8_round_trip::<ParameterAnnotation>(parameter_annotations, none);
        },
        AttributeTypeView::RuntimeInvisibleParameterAnnotations { parameter_annotations } => {
            lemma_table8_round_trip::<ParameterAnnotation>(parameter_annotations, none);
        },
        AttributeTypeView::RuntimeVisibleTypeAnnotations { annotations } => {
            lemma_table16_round_trip::<TypeAnnotation>(annotations, none);
        },
        AttributeTypeView::RuntimeInvisibleTypeAnnotations { annotations } => {
            lemma_table16_round_trip::<TypeAnnotation>(annotations, none);
        },
        AttributeTypeView::AnnotationDefault { default_value } => {
            ElementValue::lemma_round_trip(default_value, none);
        },
        AttributeTypeView::BootstrapMethods { bootstrap_methods } => {
            lemma_table16_round_trip::<BootstrapMethod>(bootstrap_methods, none);
        },
        AttributeTypeView::MethodParameters { parameters } => {
            lemma_table8_round_trip::<MethodParameter>(parameters, none);
        },
    }
}

proof fn lemma_code_head_round_trip(c: CodeAttributeView, tail: Seq<u8>)
    requires
        wire_code_head(c) is Ok,
    ensures
        parse_code_head(wire_code_head(c)->Ok_0 + tail) == Ok::<(CodeHead, Seq<u8>), ErrorView>(
            (
                CodeHead {
                    max_stack: c.max_stack,
                    max_locals: c.max_locals,
                    code: c.code,
                    exception_table: c.exception_table,
                },
                tail,
            ),
        ),
{
    reveal(wire_code_head);
    reveal(parse_code_head);
    let rows = wire_table16::<Exception>(c.exception_table)->Ok_0;
    let s = wire_code_head(c)->Ok_0 + tail;
    let s4 = rows + tail;
    let s3 = c.code + s4;
    let s2 = bytes_u32(c.code.len() as u32) + s3;
    let s1 = bytes_u16(c.max_locals) + s2;
    assert(s =~= bytes_u16(c.max_stack) + s1);
    lemma_u16_round_trip(c.max_stack, s1);
    lemma_u16_round_trip(c.max_locals, s2);
    lemma_u32_round_trip(c.code.len() as u32, s3);
    lemma_bytes_round_trip(c.code, s4);
    lemma_table16_round_trip::<Exception>(c.exception_table, tail);
}

/// Decoding the bytes of a code attribute gives the code attribute back.
pub proof fn lemma_code_round_trip(c: CodeAttributeView, pool: Seq<ConstantView>, tail: Seq<u8>)
    requires
        wire_code(c) is Ok,
        attributes_canonical(c.attributes, pool),
    ensures
        parse_code(wire_code(c)->Ok_0
            + tail, pool) == Ok::<(CodeAttributeView, Seq<u8>), ErrorView>(
            (c, tail),
        ),
    decreases c, 0nat,
{
    let head = wire_code_head(c)->Ok_0;
    let nested = wire_attributes(c.attributes)->Ok_0;
    let count = bytes_u16(c.attributes.len() as u16);
    let s = wire_code(c)->Ok_0 + tail;
    let s2 = nested + tail;
    let s1 = count + s2;
    assert(s =~= head + s1);
    lemma_code_head_round_trip(c, s1);
    lemma_u16_round_trip(c.attributes.len() as u16, s2);
    lemma_attributes_round_trip(c.attributes, pool, tail);
}

/// Decoding the bytes of a table of attributes gives the table back.
pub proof fn lemma_attribute_table_round_trip(
    list: Seq<AttributeView>,
    pool: Seq<ConstantView>,
    tail: Seq<u8>,
)
    requires
        wire_attribute_table(list) is Ok,
        attributes_canonical(list, pool),
    ensures
        parse_attribute_table(wire_attribute_table(list)->Ok_0 + tail, pool) == Ok::<
            (Seq<AttributeView>, Seq<u8>),
            ErrorView,
        >((list, tail)),
{
    reveal(wire_attribute_table);
    reveal(parse_attribute_table);
    let nested = wire_attributes(list)->Ok_0;
    let s2 = nested + tail;
    assert(wire_attribute_table(list)->Ok_0 + tail =~= bytes_u16(list.len() as u16) + s2);
    lemma_u16_round_trip(list.len() as u16, s2);
    lemma_attributes_round_trip(list, pool, tail);
}

proof fn lemma_attributes_round_trip(
    list: Seq<AttributeView>,
    pool: Seq<ConstantView>,
    tail: Seq<u8>,
)
    requires
        wire_attributes(list) is Ok,
        attributes_canonical(list, pool),
    ensures
        parse_attributes(wire_attributes(list)->Ok_0 + tail, list.len(), pool) == Ok::<
            (Seq<AttributeView>, Seq<u8>),
            ErrorView,
        >((list, tail)),
    decreases list, 2nat,
{
    reveal(parse_attribute);
    if list.len() == 0 {
        assert(Seq::<u8>::empty() + tail =~= tail);
        assert(list =~= Seq::<AttributeView>::empty());
    } else {
        let first = wire_attribute(list[0])->Ok_0;
        let others = wire_attributes(list.skip(1))->Ok_0;
        assert(wire_attributes(list)->Ok_0 + tail =~= first + (others + tail));
        lemma_attribute_round_trip(list[0], pool, others + tail);
        lemma_attributes_round_trip(list.skip(1), pool, tail);
        assert(seq![list[0]] + list.skip(1) =~= list);
    }
}

/// An attribute that was decoded is as a decoder hands attributes out, and is
/// encoded as the very bytes that it was decoded from.
pub proof fn lemma_attribute_exact(s: Seq<u8>, pool: Seq<ConstantView>)
    requires
        parse_attribute(s, pool) is Ok,
    ensures
        attribute_canonical(parse_attribute(s, pool)->Ok_0.0, pool),
        wire_attribute(parse_attribute(s, pool)->Ok_0.0) is Ok,
        wire_attribute(parse_attribute(s, pool)->Ok_0.0)->Ok_0 + parse_attribute(s, pool)->Ok_0.1
            == s,
{
    reveal(parse_attribute);
    lemma_framed_exact(s, pool);
}

/// The attribute of a frame: what the frame says of it, and its payload.
pub open spec fn framed(frame: Frame, attr_type: AttributeTypeView) -> AttributeView {
    AttributeView {
        attribute_name_index: frame.name_index,
        attribute_length: frame.length,
        attr_type,
    }
}

proof fn lemma_framed_exact(s: Seq<u8>, pool: Seq<ConstantView>)
    requires
        parse_frame(s, pool) is Ok,
        parse_payload(parse_frame(s, pool)->Ok_0.0.kind, parse_frame(s, pool)->Ok_0.0.payload, pool)
            is Ok,
    ensures
        ({
            let frame = parse_frame(s, pool)->Ok_0.0;
            let v = framed(frame, parse_payload(frame.kind, frame.payload, pool)->Ok_0);
            &&& attribute_canonical(v, pool)
            &&& wire_attribute(v) is Ok
            &&& wire_attribute(v)->Ok_0 + parse_frame(s, pool)->Ok_0.1 == s
        }),
    decreases s.len(), 4nat, 0nat,
{
    let frame = parse_frame(s, pool)->Ok_0.0;
    let rest = parse_frame(s, pool)->Ok_0.1;
    let s1 = parse_u16(s)->Ok_0.1;
    let s2 = parse_u32(s1)->Ok_0.1;
    lemma_u16_exact(s);
    lemma_u32_exact(s1);
    lemma_bytes_exact(s2, frame.length as nat);
    AttributeKind::lemma_found_has_name(pool_utf8(pool, frame.name_index as int)->Some_0);
    lemma_payload_exact(frame.kind, frame.payload, pool);
    let t = parse_payload(frame.kind, frame.payload, pool)->Ok_0;
    let v = framed(frame, t);
    assert(wire_attribute(v) == Ok::<Seq<u8>, ErrorView>(
        bytes_u16(frame.name_index) + (bytes_u32(frame.length) + frame.payload),
    ));
    assert((bytes_u16(frame.name_index) + (bytes_u32(frame.length) + frame.payload)) + rest =~= s);
}

/// A payload that was decoded is of the kind that was asked for and is
/// encoded as the very bytes that it was decoded from.
pub proof fn lemma_payload_exact(kind: AttributeKind, s: Seq<u8>, pool: Seq<ConstantView>)
    requires
        parse_payload(kind, s, pool) is Ok,
    ensures
        parse_payload(kind, s, pool)->Ok_0.kind() == kind,
        body_canonical(parse_payload(kind, s, pool)->Ok_0, pool),
        wire_body(parse_payload(kind, s, pool)->Ok_0) == Ok::<Seq<u8>, ErrorView>(s),
    decreases s.len(), 3nat, 0nat,
{
    let rest = parse_body(kind, s, pool)->Ok_0.1;
    assert(rest =~= Seq::<u8>::empty());
    match kind {
        AttributeKind::Code => {
            lemma_code_exact(s, pool);
            let c = parse_code(s, pool)->Ok_0.0;
            assert(wire_code(c)->Ok_0 + rest =~= wire_code(c)->Ok_0);
        },
        _ => {
            lemma_plain_exact(kind, s);
            let t = parse_plain(kind, s)->Ok_0.0;
            assert(wire_plain(t)->Ok_0 + rest =~= wire_plain(t)->Ok_0);
        },
    }
}

proof fn lemma_plain_exact(kind: AttributeKind, s: Seq<u8>)
    requires
        kind != AttributeKind::Code,
        parse_plain(kind, s) is Ok,
    ensures
        parse_plain(kind, s)->Ok_0.0.kind() == kind,
        !(parse_plain(kind, s)->Ok_0.0 is Code),
        wire_plain(parse_plain(kind, s)->Ok_0.0) is Ok,
        wire_plain(parse_plain(kind, s)->Ok_0.0)->Ok_0 + parse_plain(kind, s)->Ok_0.1 == s,
{
    reveal(wire_plain);
    reveal(parse_plain);
    match kind {
        AttributeKind::ConstantValue => {
            lemma_u16_exact(s);
        },
        AttributeKind::Code => {},
        AttributeKind::StackMapTable => {
            lemma_table16_exact::<StackMap>(s);
        },
        AttributeKind::Exceptions => {
            lemma_table16_exact::<u16>(s);
        },
        AttributeKind::InnerClasses => {
            lemma_table16_exact::<InnerClass>(s);
        },
        AttributeKind::EnclosingMethod => {
            crate::constant::lemma_u16_pair_exact(s);
        },
        AttributeKind::Synthetic => {
            assert(Seq::<u8>::empty() + s =~= s);
        },
        AttributeKind::Signature => {
            lemma_u16_exact(s);
        },
        AttributeKind::SourceFile => {
            lemma_u16_exact(s);
        },
        AttributeKind::SourceDebugExtension => {
            assert(s + Seq::<u8>::empty() =~= s);
        },
        AttributeKind::LineNumberTable => {
            lemma_table16_exact::<LineNumber>(s);
        },
        AttributeKind::LocalVariableTable => {
            lemma_table16_exact::<LocalVariable>(s);
        },
        AttributeKind::LocalVariableTypeTable => {
            lemma_table16_exact::<LocalVariableType>(s);
        },
        AttributeKind::Deprecated => {
            assert(Seq::<u8>::empty() + s =~= s);
        },
        AttributeKind::RuntimeVisibleAnnotations => {
            lemma_table16_exact::<Annotation>(s);
        },
        AttributeKind::RuntimeInvisibleAnnotations => {
            lemma_table16_exact::<Annotation>(s);
        },
        AttributeKind::RuntimeVisibleParameterAnnotations => {
            lemma_table8_exact::<ParameterAnnotation>(s);
        },
        AttributeKind::RuntimeInvisibleParameterAnnotations => {
            lemma_table8_exact::<ParameterAnnotation>(s);
        },
        AttributeKind::RuntimeVisibleTypeAnnotations => {
            lemma_table16_exact::<TypeAnnotation>(s);
        },
        AttributeKind::RuntimeInvisibleTypeAnnotations => {
            lemma_table16_exact::<TypeAnnotation>(s);
        },
        AttributeKind::AnnotationDefault => {
            ElementValue::lemma_exact(s);
        },
        AttributeKind::BootstrapMethods => {
            lemma_table16_exact::<BootstrapMethod>(s);
        },
        AttributeKind::MethodParameters => {
            lemma_table8_exact::<MethodParameter>(s);
        },
    }
}

proof fn lemma_code_head_exact(s: Seq<u8>, attributes: Seq<AttributeView>)
    requires
        parse_code_head(s) is Ok,
    ensures
        ({
            let head = parse_code_head(s)->Ok_0.0;
            let c = CodeAttributeView {
                max_stack: head.max_stack,
                max_locals: head.max_locals,
                code: head.code,
                exception_table: head.exception_table,
                attributes,
            };
            &&& wire_code_head(c) is Ok
            &&& wire_code_head(c)->Ok_0 + parse_code_head(s)->Ok_0.1 == s
        }),
{
    reveal(wire_code_head);
    reveal(parse_code_head);
    let head = parse_code_head(s)->Ok_0.0;
    let rest = parse_code_head(s)->Ok_0.1;
    let s1 = parse_u16(s)->Ok_0.1;
    let s2 = parse_u16(s1)->Ok_0.1;
    let s3 = parse_u32(s2)->Ok_0.1;
    let length = parse_u32(s2)->Ok_0.0;
    let s4 = parse_bytes(s3, length as nat)->Ok_0.1;
    lemma_u16_exact(s);
    lemma_u16_exact(s1);
    lemma_u32_exact(s2);
    lemma_bytes_exact(s3, length as nat);
    lemma_table16_exact::<Exception>(s4);
    let rows = wire_table16::<Exception>(head.exception_table)->Ok_0;
    let front = bytes_u16(head.max_stack) + (bytes_u16(head.max_locals) + (bytes_u32(length)
        + head.code));
    assert((front + rows) + rest =~= s);
}

/// A code attribute that was decoded holds attributes as a decoder hands them
/// out, and is encoded as the very bytes that it was decoded from.
pub proof fn lemma_code_exact(s: Seq<u8>, pool: Seq<ConstantView>)
    requires
        parse_code(s, pool) is Ok,
    ensures
        attributes_canonical(parse_code(s, pool)->Ok_0.0.attributes, pool),
        wire_code(parse_code(s, pool)->Ok_0.0) is Ok,
        wire_code(parse_code(s, pool)->Ok_0.0)->Ok_0 + parse_code(s, pool)->Ok_0.1 == s,
    decreases s.len(), 1nat, 0nat,
{
    let c = parse_code(s, pool)->Ok_0.0;
    let rest = parse_code(s, pool)->Ok_0.1;
    let s1 = parse_code_head(s)->Ok_0.1;
    lemma_code_head_exact(s, c.attributes);
    lemma_u16_exact(s1);
    let n = parse_u16(s1)->Ok_0.0;
    let s2 = parse_u16(s1)->Ok_0.1;
    lemma_attributes_exact(s2, n as nat, pool);
    let head = wire_code_head(c)->Ok_0;
    let nested = wire_attributes(c.attributes)->Ok_0;
    assert((head + (bytes_u16(n) + nested)) + rest =~= head + (bytes_u16(n) + (nested + rest)));
}

/// A table of attributes that was decoded holds attributes as a decoder
/// hands them out, and is encoded as the very bytes that it was decoded from.
pub proof fn lemma_attribute_table_exact(s: Seq<u8>, pool: Seq<ConstantView>)
    requires
        parse_attribute_table(s, pool) is Ok,
    ensures
        attributes_canonical(parse_attribute_table(s, pool)->Ok_0.0, pool),
        wire_attribute_table(parse_attribute_table(s, pool)->Ok_0.0) is Ok,
        wire_attribute_table(parse_attribute_table(s, pool)->Ok_0.0)->Ok_0 + parse_attribute_table(
            s,
            pool,
        )->Ok_0.1 == s,
{
    reveal(wire_attribute_table);
    reveal(parse_attribute_table);
    lemma_u16_exact(s);
    let n = parse_u16(s)->Ok_0.0;
    let s1 = parse_u16(s)->Ok_0.1;
    lemma_attributes_exact(s1, n as nat, pool);
    let list = parse_attributes(s1, n as nat, pool)->Ok_0.0;
    let rest = parse_attributes(s1, n as nat, pool)->Ok_0.1;
    let nested = wire_attributes(list)->Ok_0;
    assert((bytes_u16(n) + nested) + rest =~= bytes_u16(n) + (nested + rest));
}

proof fn lemma_attributes_exact(s: Seq<u8>, n: nat, pool: Seq<ConstantView>)
    requires
        parse_attributes(s, n, pool) is Ok,
    ensures
        parse_attributes(s, n, pool)->Ok_0.0.len() == n,
        attributes_canonical(parse_attributes(s, n, pool)->Ok_0.0, pool),
        wire_attributes(parse_attributes(s, n, pool)->Ok_0.0) is Ok,
        wire_attributes(parse_attributes(s, n, pool)->Ok_0.0)->Ok_0 + parse_attributes(
            s,
            n,
            pool,
        )->Ok_0.1 == s,
    decreases s.len(), 5nat, n,
{
    if n == 0 {
        assert(Seq::<u8>::empty() + s =~= s);
    } else {
        let frame = parse_frame(s, pool)->Ok_0.0;
        let s1 = parse_frame(s, pool)->Ok_0.1;
        let first = framed(frame, parse_payload(frame.kind, frame.payload, pool)->Ok_0);
        lemma_framed_exact(s, pool);
        lemma_attributes_exact(s1, (n - 1) as nat, pool);
        let others = parse_attributes(s1, (n - 1) as nat, pool)->Ok_0.0;
        let rest = parse_attributes(s1, (n - 1) as nat, pool)->Ok_0.1;
        let list = seq![first] + others;
        assert(list[0] == first);
        assert(list.skip(1) =~= others);
        let a = wire_attribute(first)->Ok_0;
        let b = wire_attributes(others)->Ok_0;
        assert((a + b) + rest =~= a + (b + rest));
    }
}

/// The bytes of an attribute, cut short, give a wrong length, whatever the
/// payload holds: the head is cut, or the payload is shorter than the head
/// declares.
pub proof fn lemma_attribute_truncated(v: AttributeView, pool: Seq<ConstantView>, k: int)
    requires
        wire_attribute(v) is Ok,
        attribute_named(v, pool),
        0 <= k < wire_attribute(v)->Ok_0.len(),
    ensures
        parse_attribute(wire_attribute(v)->Ok_0.take(k), pool) == Err::<
            (AttributeView, Seq<u8>),
            ErrorView,
        >(ErrorView::InvalidLength),
{
    reveal(parse_attribute);
    let payload = wire_body(v.attr_type)->Ok_0;
    let none = Seq::<u8>::empty();
    let r2 = payload + none;
    let r1 = bytes_u32(payload.len() as u32) + r2;
    assert(wire_attribute(v)->Ok_0 =~= bytes_u16(v.attribute_name_index) + r1);
    lemma_u16_prefix(v.attribute_name_index, r1, k);
    if k >= 2 {
        lemma_u32_prefix(payload.len() as u32, r2, k - 2);
        if k >= 6 {
            v.attr_type.kind().lemma_name_found();
            lemma_bytes_prefix(payload, none, k - 6);
        }
    }
}

/// Of the bytes of an attribute with more bytes behind them, cut off
/// anywhere: cut inside the attribute they give a wrong length, cut behind it
/// they give the attribute and what is left of the rest.
pub proof fn lemma_attribute_prefix(
    v: AttributeView,
    pool: Seq<ConstantView>,
    rest: Seq<u8>,
    k: int,
)
    requires
        wire_attribute(v) is Ok,
        attribute_canonical(v, pool),
        0 <= k <= wire_attribute(v)->Ok_0.len() + rest.len(),
    ensures
        parse_attribute((wire_attribute(v)->Ok_0 + rest).take(k), pool) == if k < wire_attribute(
            v,
        )->Ok_0.len() {
            Err::<(AttributeView, Seq<u8>), ErrorView>(ErrorView::InvalidLength)
        } else {
            Ok((v, rest.take(k - wire_attribute(v)->Ok_0.len())))
        },
{
    let bytes = wire_attribute(v)->Ok_0;
    if k < bytes.len() {
        assert((bytes + rest).take(k) =~= bytes.take(k));
        lemma_attribute_truncated(v, pool, k);
    } else {
        assert((bytes + rest).take(k) =~= bytes + rest.take(k - bytes.len()));
        lemma_attribute_round_trip(v, pool, rest.take(k - bytes.len()));
    }
}

/// Of the bytes of a table of attributes with more bytes behind them, cut
/// off anywhere: cut inside the table they give a wrong length, cut behind
/// it they give the table and what is left of the rest.
pub proof fn lemma_attribute_table_prefix(
    list: Seq<AttributeView>,
    pool: Seq<ConstantView>,
    rest: Seq<u8>,
    k: int,
)
    requires
        wire_attribute_table(list) is Ok,
        attributes_canonical(list, pool),
        0 <= k <= wire_attribute_table(list)->Ok_0.len() + rest.len(),
    ensures
        parse_attribute_table((wire_attribute_table(list)->Ok_0 + rest).take(k), pool) == if k
            < wire_attribute_table(list)->Ok_0.len() {
            Err::<(Seq<AttributeView>, Seq<u8>), ErrorView>(ErrorView::InvalidLength)
        } else {
            Ok((list, rest.take(k - wire_attribute_table(list)->Ok_0.len())))
        },
{
    reveal(wire_attribute_table);
    reveal(parse_attribute_table);
    let rows = wire_attributes(list)->Ok_0;
    let count = bytes_u16(list.len() as u16);
    assert((count + rows) + rest =~= count + (rows + rest));
    lemma_u16_prefix(list.len() as u16, rows + rest, k);
    if k >= 2 {
        lemma_attributes_prefix(list, pool, rest, k - 2);
    }
}

proof fn lemma_attributes_prefix(
    list: Seq<AttributeView>,
    pool: Seq<ConstantView>,
    rest: Seq<u8>,
    k: int,
)
    requires
        wire_attributes(list) is Ok,
        attributes_canonical(list, pool),
        0 <= k <= wire_attributes(list)->Ok_0.len() + rest.len(),
    ensures
        parse_attributes((wire_attributes(list)->Ok_0 + rest).take(k), list.len(), pool) == if k
            < wire_attributes(list)->Ok_0.len() {
            Err::<(Seq<AttributeView>, Seq<u8>), ErrorView>(ErrorView::InvalidLength)
        } else {
            Ok((list, rest.take(k - wire_attributes(list)->Ok_0.len())))
        },
    decreases list.len(),
{
    reveal(parse_attribute);
    let bytes = wire_attributes(list)->Ok_0;
    if list.len() == 0 {
        assert((bytes + rest).take(k) =~= rest.take(k));
        assert(list =~= Seq::<AttributeView>::empty());
    } else {
        let first = wire_attribute(list[0])->Ok_0;
        let others = wire_attributes(list.skip(1))->Ok_0;
        assert(bytes + rest =~= first + (others + rest));
        lemma_attribute_prefix(list[0], pool, others + rest, k);
        if k >= first.len() {
            lemma_attributes_prefix(list.skip(1), pool, rest, k - first.len());
            assert(seq![list[0]] + list.skip(1) =~= list);
        }
    }
}

} // verus!
