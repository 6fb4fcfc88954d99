//! The constant pool: the table of literals and symbolic references that the
//! rest of a class file points into by index, counting from 1.

use vstd::prelude::*;
use vstd::string::StrSliceExecFns;
use vstd::utf8::encode_utf8;
use bytes::BytesMut;
use crate::codec::{join, parse_seq, read_seq, wire_seq, write_seq, Wire};
use crate::error::Error;
use crate::error::ErrorView;
use crate::wire::{
    lemma_bytes_prefix, lemma_i32_exact, lemma_i32_prefix, lemma_i64_exact, lemma_i64_prefix,
    lemma_u16_exact, lemma_u16_prefix, lemma_u32_exact, lemma_u32_prefix, lemma_u64_exact,
    lemma_u64_prefix, lemma_u8_exact, lemma_u8_prefix,
};
use crate::wire::{
    bytes_u16, bytes_u32, bytes_u64, decodes, encodes, group_wire_round_trip, parse_i32,
    parse_i64, parse_u16, parse_u32, parse_u64, parse_u8, pattern32, pattern64, push_i32,
    push_i64, push_u16, push_u32, push_u64, push_u8, read_i32, read_i64, read_u16, read_u32,
    read_u64, read_u8, unread, Parsed, Wired,
};
use crate::{lemma_text_round_trip, parse_text, read_string, wire_prefixed, write_bytes};

verus! {

/// The kinds of constant-pool entry that the format names.
#[derive(Debug, Clone, Copy, PartialEq, Eq)]
pub enum Tag {
    Class,
    FieldRef,
    MethodRef,
    InterfaceMethodRef,
    String,
    Integer,
    Float,
    Long,
    Double,
    NameAndType,
    Utf8,
    MethodHandle,
    MethodType,
    Dynamic,
    InvokeDynamic,
    Module,
    Package,
}

impl Tag {
    /// The byte that stands for the tag on the wire.
    pub open spec fn spec_value(self) -> u8 {
        match self {
            Tag::Class => 7,
            Tag::FieldRef => 9,
            Tag::MethodRef => 10,
            Tag::InterfaceMethodRef => 11,
            Tag::String => 8,
            Tag::Integer => 3,
            Tag::Float => 4,
            Tag::Long => 5,
            Tag::Double => 6,
            Tag::NameAndType => 12,
            Tag::Utf8 => 1,
            Tag::MethodHandle => 15,
            Tag::MethodType => 16,
            Tag::Dynamic => 17,
            Tag::InvokeDynamic => 18,
            Tag::Module => 19,
            Tag::Package => 20,
        }
    }

    /// The byte that stands for the tag on the wire.
    pub fn value(self) -> (v: u8)
        ensures
            v == self.spec_value(),
    {
        match self {
            Tag::Class => 7,
            Tag::FieldRef => 9,
            Tag::MethodRef => 10,
            Tag::InterfaceMethodRef => 11,
            Tag::String => 8,
            Tag::Integer => 3,
            Tag::Float => 4,
            Tag::Long => 5,
            Tag::Double => 6,
            Tag::NameAndType => 12,
            Tag::Utf8 => 1,
            Tag::MethodHandle => 15,
            Tag::MethodType => 16,
            Tag::Dynamic => 17,
            Tag::InvokeDynamic => 18,
            Tag::Module => 19,
            Tag::Package => 20,
        }
    }

    /// The tag that a byte stands for, if it stands for one.
    pub fn from_u8(tag: u8) -> (r: Option<Tag>)
        ensures
            r is Some <==> (1 <= tag <= 20 && tag != 2 && tag != 13 && tag != 14),
            r is Some ==> r->Some_0.spec_value() == tag,
    {
        match tag {
            7 => Some(Tag::Class),
            9 => Some(Tag::FieldRef),
            10 => Some(Tag::MethodRef),
            11 => Some(Tag::InterfaceMethodRef),
            8 => Some(Tag::String),
            3 => Some(Tag::Integer),
            4 => Some(Tag::Float),
            5 => Some(Tag::Long),
            6 => Some(Tag::Double),
            12 => Some(Tag::NameAndType),
            1 => Some(Tag::Utf8),
            15 => Some(Tag::MethodHandle),
            16 => Some(Tag::MethodType),
            17 => Some(Tag::Dynamic),
            18 => Some(Tag::InvokeDynamic),
            19 => Some(Tag::Module),
            20 => Some(Tag::Package),
            _ => None,
        }
    }
}

/// One entry of the constant pool. `Float` and `Double` hold the IEEE 754 bit
/// pattern of their value, as it stands on the wire.
#[derive(Debug, Clone, PartialEq, Eq)]
pub enum Constant {
    Class { name_index: u16 },
    FieldRef { class_index: u16, name_and_type_index: u16 },
    MethodRef { class_index: u16, name_and_type_index: u16 },
    InterfaceMethodRef { class_index: u16, name_and_type_index: u16 },
    String { string_index: u16 },
    Integer(i32),
    Float(u32),
    Long(i64),
    Double(u64),
    NameAndType { name_index: u16, descriptor_index: u16 },
    Utf8(String),
    MethodHandle { reference_kind: u8, reference_index: u16 },
    MethodType { descriptor_index: u16 },
    InvokeDynamic { bootstrap_method_attr_index: u16, name_and_type_index: u16 },
}

/// The model of a [`Constant`]: its text is a sequence of characters.
pub enum ConstantView {
    Class { name_index: u16 },
    FieldRef { class_index: u16, name_and_type_index: u16 },
    MethodRef { class_index: u16, name_and_type_index: u16 },
    InterfaceMethodRef { class_index: u16, name_and_type_index: u16 },
    String { string_index: u16 },
    Integer(i32),
    Float(u32),
    Long(i64),
    Double(u64),
    NameAndType { name_index: u16, descriptor_index: u16 },
    Utf8(Seq<char>),
    MethodHandle { reference_kind: u8, reference_index: u16 },
    MethodType { descriptor_index: u16 },
    InvokeDynamic { bootstrap_method_attr_index: u16, name_and_type_index: u16 },
}

impl DeepView for Constant {
    type V = ConstantView;

    open spec fn deep_view(&self) -> ConstantView {
        match *self {
            Constant::Class { name_index } => ConstantView::Class { name_index },
            Constant::FieldRef { class_index, name_and_type_index } => ConstantView::FieldRef {
                class_index,
                name_and_type_index,
            },
            Constant::MethodRef { class_index, name_and_type_index } => ConstantView::MethodRef {
                class_index,
                name_and_type_index,
            },
            Constant::InterfaceMethodRef {
                class_index,
                name_and_type_index,
            } => ConstantView::InterfaceMethodRef { class_index, name_and_type_index },
            Constant::String { string_index } => ConstantView::String { string_index },
            Constant::Integer(value) => ConstantView::Integer(value),
            Constant::Float(bits) => ConstantView::Float(bits),
            Constant::Long(value) => ConstantView::Long(value),
            Constant::Double(bits) => ConstantView::Double(bits),
            Constant::NameAndType { name_index, descriptor_index } => ConstantView::NameAndType {
                name_index,
                descriptor_index,
            },
            Constant::Utf8(text) => ConstantView::Utf8(text@),
            Constant::MethodHandle { reference_kind, reference_index } => ConstantView::MethodHandle {
                reference_kind,
                reference_index,
            },
            Constant::MethodType { descriptor_index } => ConstantView::MethodType {
                descriptor_index,
            },
            Constant::InvokeDynamic {
                bootstrap_method_attr_index,
                name_and_type_index,
            } => ConstantView::InvokeDynamic { bootstrap_method_attr_index, name_and_type_index },
        }
    }
}

/// Two 16-bit fields one after the other.
pub open spec fn parse_u16_pair(s: Seq<u8>) -> Parsed<(u16, u16)> {
    match parse_u16(s) {
        Err(e) => Err(e),
        Ok((a, s1)) => match parse_u16(s1) {
            Err(e) => Err(e),
            Ok((b, s2)) => Ok(((a, b), s2)),
        },
    }
}

/// The constant that follows the tag byte `tag`.
pub open spec fn parse_constant_body(tag: u8, s: Seq<u8>) -> Parsed<ConstantView> {
    if tag == 7 {
        match parse_u16(s) {
            Err(e) => Err(e),
            Ok((name_index, rest)) => Ok((ConstantView::Class { name_index }, rest)),
        }
    } else if tag == 9 {
        match parse_u16_pair(s) {
            Err(e) => Err(e),
            Ok(((class_index, name_and_type_index), rest)) => Ok(
                (ConstantView::FieldRef { class_index, name_and_type_index }, rest),
            ),
        }
    } else if tag == 10 {
        match parse_u16_pair(s) {
            Err(e) => Err(e),
            Ok(((class_index, name_and_type_index), rest)) => Ok(
                (ConstantView::MethodRef { class_index, name_and_type_index }, rest),
            ),
        }
    } else if tag == 11 {
        match parse_u16_pair(s) {
            Err(e) => Err(e),
            Ok(((class_index, name_and_type_index), rest)) => Ok(
                (ConstantView::InterfaceMethodRef { class_index, name_and_type_index }, rest),
            ),
        }
    } else if tag == 8 {
        match parse_u16(s) {
            Err(e) => Err(e),
            Ok((string_index, rest)) => Ok((ConstantView::String { string_index }, rest)),
        }
    } else if tag == 3 {
        match parse_i32(s) {
            Err(e) => Err(e),
            Ok((value, rest)) => Ok((ConstantView::Integer(value), rest)),
        }
    } else if tag == 4 {
        match parse_u32(s) {
            Err(e) => Err(e),
            Ok((bits, rest)) => Ok((ConstantView::Float(bits), rest)),
        }
    } else if tag == 5 {
        match parse_i64(s) {
            Err(e) => Err(e),
            Ok((value, rest)) => Ok((ConstantView::Long(value), rest)),
        }
    } else if tag == 6 {
        match parse_u64(s) {
            Err(e) => Err(e),
            Ok((bits, rest)) => Ok((ConstantView::Double(bits), rest)),
        }
    } else if tag == 12 {
        match parse_u16_pair(s) {
            Err(e) => Err(e),
            Ok(((name_index, descriptor_index), rest)) => Ok(
                (ConstantView::NameAndType { name_index, descriptor_index }, rest),
            ),
        }
    } else if tag == 1 {
        match parse_text(s) {
            Err(e) => Err(e),
            Ok((text, rest)) => Ok((ConstantView::Utf8(text), rest)),
        }
    } else if tag == 15 {
        match parse_u8(s) {
            Err(e) => Err(e),
            Ok((reference_kind, s1)) => match parse_u16(s1) {
                Err(e) => Err(e),
                Ok((reference_index, rest)) => Ok(
                    (ConstantView::MethodHandle { reference_kind, reference_index }, rest),
                ),
            },
        }
    } else if tag == 16 {
        match parse_u16(s) {
            Err(e) => Err(e),
            Ok((descriptor_index, rest)) => Ok((ConstantView::MethodType { descriptor_index }, rest)),
        }
    } else if tag == 18 {
        match parse_u16_pair(s) {
            Err(e) => Err(e),
            Ok(((bootstrap_method_attr_index, name_and_type_index), rest)) => Ok(
                (
                    ConstantView::InvokeDynamic { bootstrap_method_attr_index, name_and_type_index },
                    rest,
                ),
            ),
        }
    } else {
        Err(ErrorView::InvalidConstantTag(tag))
    }
}

/// The tag byte of a constant.
pub open spec fn constant_tag(v: ConstantView) -> u8 {
    match v {
        ConstantView::Class { .. } => 7,
        ConstantView::FieldRef { .. } => 9,
        ConstantView::MethodRef { .. } => 10,
        ConstantView::InterfaceMethodRef { .. } => 11,
        ConstantView::String { .. } => 8,
        ConstantView::Integer(_) => 3,
        ConstantView::Float(_) => 4,
        ConstantView::Long(_) => 5,
        ConstantView::Double(_) => 6,
        ConstantView::NameAndType { .. } => 12,
        ConstantView::Utf8(_) => 1,
        ConstantView::MethodHandle { .. } => 15,
        ConstantView::MethodType { .. } => 16,
        ConstantView::InvokeDynamic { .. } => 18,
    }
}

/// The bytes of a constant after its tag byte. A text whose UTF-8 encoding is
/// longer than 65535 bytes has none.
pub open spec fn wire_constant_body(v: ConstantView) -> Wired {
    match v {
        ConstantView::Class { name_index } => Ok(bytes_u16(name_index)),
        ConstantView::FieldRef { class_index, name_and_type_index } => Ok(
            bytes_u16(class_index) + bytes_u16(name_and_type_index),
        ),
        ConstantView::MethodRef { class_index, name_and_type_index } => Ok(
            bytes_u16(class_index) + bytes_u16(name_and_type_index),
        ),
        ConstantView::InterfaceMethodRef { class_index, name_and_type_index } => Ok(
            bytes_u16(class_index) + bytes_u16(name_and_type_index),
        ),
        ConstantView::String { string_index } => Ok(bytes_u16(string_index)),
        ConstantView::Integer(value) => Ok(bytes_u32(pattern32(value as int) as u32)),
        ConstantView::Float(bits) => Ok(bytes_u32(bits)),
        ConstantView::Long(value) => Ok(bytes_u64(pattern64(value as int) as u64)),
        ConstantView::Double(bits) => Ok(bytes_u64(bits)),
        ConstantView::NameAndType { name_index, descriptor_index } => Ok(
            bytes_u16(name_index) + bytes_u16(descriptor_index),
        ),
        ConstantView::Utf8(text) => wire_prefixed(encode_utf8(text)),
        ConstantView::MethodHandle { reference_kind, reference_index } => Ok(
            seq![reference_kind] + bytes_u16(reference_index),
        ),
        ConstantView::MethodType { descriptor_index } => Ok(bytes_u16(descriptor_index)),
        ConstantView::InvokeDynamic { bootstrap_method_attr_index, name_and_type_index } => Ok(
            bytes_u16(bootstrap_method_attr_index) + bytes_u16(name_and_type_index),
        ),
    }
}

impl Wire for Constant {
    open spec fn parse(s: Seq<u8>) -> Parsed<ConstantView> {
        match parse_u8(s) {
            Err(e) => Err(e),
            Ok((tag, s1)) => parse_constant_body(tag, s1),
        }
    }

    open spec fn wire(v: ConstantView) -> Wired {
        join(Ok(seq![constant_tag(v)]), wire_constant_body(v))
    }

    fn decode(buf: &mut BytesMut) -> (r: Result<Constant, Error>) {
        let tag = read_u8(buf)?;
        match tag {
            7 => {
                let name_index = read_u16(buf)?;
                Ok(Constant::Class { name_index })
            },
            9 => {
                let class_index = read_u16(buf)?;
                let name_and_type_index = read_u16(buf)?;
                Ok(Constant::FieldRef { class_index, name_and_type_index })
            },
            10 => {
                let class_index = read_u16(buf)?;
                let name_and_type_index = read_u16(buf)?;
                Ok(Constant::MethodRef { class_index, name_and_type_index })
            },
            11 => {
                let class_index = read_u16(buf)?;
                let name_and_type_index = read_u16(buf)?;
                Ok(Constant::InterfaceMethodRef { class_index, name_and_type_index })
            },
            8 => {
                let string_index = read_u16(buf)?;
                Ok(Constant::String { string_index })
            },
            3 => {
                let value = read_i32(buf)?;
                Ok(Constant::Integer(value))
            },
            4 => {
                let bits = read_u32(buf)?;
                Ok(Constant::Float(bits))
            },
            5 => {
                let value = read_i64(buf)?;
                Ok(Constant::Long(value))
            },
            6 => {
                let bits = read_u64(buf)?;
                Ok(Constant::Double(bits))
            },
            12 => {
                let name_index = read_u16(buf)?;
                let descriptor_index = read_u16(buf)?;
                Ok(Constant::NameAndType { name_index, descriptor_index })
            },
            1 => {
                let text = read_string(buf)?;
                Ok(Constant::Utf8(text))
            },
            15 => {
                let reference_kind = read_u8(buf)?;
                let reference_index = read_u16(buf)?;
                Ok(Constant::MethodHandle { reference_kind, reference_index })
            },
            16 => {
                let descriptor_index = read_u16(buf)?;
                Ok(Constant::MethodType { descriptor_index })
            },
            18 => {
                let bootstrap_method_attr_index = read_u16(buf)?;
                let name_and_type_index = read_u16(buf)?;
                Ok(Constant::InvokeDynamic { bootstrap_method_attr_index, name_and_type_index })
            },
            _ => Err(Error::InvalidConstantTag(tag)),
        }
    }

    fn write(&self, out: &mut Vec<u8>) -> (r: Result<usize, Error>) {
        self.to_buf(out)
    }

    fn encode(&self, out: &mut Vec<u8>) -> (r: Result<usize, Error>) {
        self.to_buf(out)
    }

    proof fn lemma_round_trip(v: ConstantView, tail: Seq<u8>) {
        broadcast use group_wire_round_trip;

        let body = wire_constant_body(v)->Ok_0;
        assert(parse_u8(seq![constant_tag(v)] + (body + tail)) == Ok::<(u8, Seq<u8>), ErrorView>(
            (constant_tag(v), body + tail),
        ));
        match v {
            ConstantView::Utf8(text) => {
                lemma_text_round_trip(text, tail);
            },
            _ => {},
        }
    }

    proof fn lemma_exact(s: Seq<u8>) {
        lemma_u8_exact(s);
        let tag = parse_u8(s)->Ok_0.0;
        let s1 = parse_u8(s)->Ok_0.1;
        lemma_constant_body_exact(tag, s1);
        let v = parse_constant_body(tag, s1)->Ok_0.0;
        let rest = parse_constant_body(tag, s1)->Ok_0.1;
        let body = wire_constant_body(v)->Ok_0;
        assert((seq![tag] + body) + rest =~= seq![tag] + (body + rest));
    }

    proof fn lemma_truncated(v: ConstantView, k: int) {
        let body = wire_constant_body(v)->Ok_0;
        lemma_u8_prefix(constant_tag(v), body, k);
        if k >= 1 {
            lemma_constant_body_truncated(v, k - 1);
        }
    }
}

/// Two 16-bit fields that were read are written back as the bytes that they
/// were read from.
pub proof fn lemma_u16_pair_exact(s: Seq<u8>)
    requires
        parse_u16_pair(s) is Ok,
    ensures
        bytes_u16(parse_u16_pair(s)->Ok_0.0.0) + bytes_u16(parse_u16_pair(s)->Ok_0.0.1)
            + parse_u16_pair(s)->Ok_0.1 == s,
{
    lemma_u16_exact(s);
    let s1 = parse_u16(s)->Ok_0.1;
    lemma_u16_exact(s1);
    let a = bytes_u16(parse_u16(s)->Ok_0.0);
    let b = bytes_u16(parse_u16(s1)->Ok_0.0);
    let rest = parse_u16(s1)->Ok_0.1;
    assert((a + b) + rest =~= a + (b + rest));
}

/// A constant that was parsed behind its tag byte has that tag and is
/// written back as the bytes that it was parsed from.
proof fn lemma_constant_body_exact(tag: u8, s: Seq<u8>)
    requires
        parse_constant_body(tag, s) is Ok,
    ensures
        constant_tag(parse_constant_body(tag, s)->Ok_0.0) == tag,
        wire_constant_body(parse_constant_body(tag, s)->Ok_0.0) is Ok,
        wire_constant_body(parse_constant_body(tag, s)->Ok_0.0)->Ok_0 + parse_constant_body(
            tag,
            s,
        )->Ok_0.1 == s,
{
    if tag == 7 || tag == 8 || tag == 16 {
        lemma_u16_exact(s);
    } else if tag == 9 || tag == 10 || tag == 11 || tag == 12 || tag == 18 {
        lemma_u16_pair_exact(s);
    } else if tag == 3 {
        lemma_i32_exact(s);
    } else if tag == 4 {
        lemma_u32_exact(s);
    } else if tag == 5 {
        lemma_i64_exact(s);
    } else if tag == 6 {
        lemma_u64_exact(s);
    } else if tag == 1 {
        crate::lemma_text_exact(s);
    } else if tag == 15 {
        lemma_u8_exact(s);
        let s1 = parse_u8(s)->Ok_0.1;
        lemma_u16_exact(s1);
        let kind = seq![parse_u8(s)->Ok_0.0];
        let index = bytes_u16(parse_u16(s1)->Ok_0.0);
        let rest = parse_u16(s1)->Ok_0.1;
        assert((kind + index) + rest =~= kind + (index + rest));
    }
}

/// A constant's bytes after the tag byte, cut short, give a wrong length.
proof fn lemma_constant_body_truncated(v: ConstantView, k: int)
    requires
        wire_constant_body(v) is Ok,
        0 <= k < wire_constant_body(v)->Ok_0.len(),
    ensures
        parse_constant_body(constant_tag(v), wire_constant_body(v)->Ok_0.take(k)) == Err::<
            (ConstantView, Seq<u8>),
            ErrorView,
        >(ErrorView::InvalidLength),
{
    let body = wire_constant_body(v)->Ok_0;
    let none = Seq::<u8>::empty();
    match v {
        ConstantView::Class { name_index } => {
            assert(body =~= bytes_u16(name_index) + none);
            lemma_u16_prefix(name_index, none, k);
        },
        ConstantView::FieldRef { class_index, name_and_type_index } => {
            lemma_u16_pair_truncated(class_index, name_and_type_index, k);
        },
        ConstantView::MethodRef { class_index, name_and_type_index } => {
            lemma_u16_pair_truncated(class_index, name_and_type_index, k);
        },
        ConstantView::InterfaceMethodRef { class_index, name_and_type_index } => {
            lemma_u16_pair_truncated(class_index, name_and_type_index, k);
        },
        ConstantView::String { string_index } => {
            assert(body =~= bytes_u16(string_index) + none);
            lemma_u16_prefix(string_index, none, k);
        },
        ConstantView::Integer(value) => {
            assert(body =~= body + none);
            lemma_i32_prefix(value, none, k);
        },
        ConstantView::Float(bits) => {
            assert(body =~= body + none);
            lemma_u32_prefix(bits, none, k);
        },
        ConstantView::Long(value) => {
            assert(body =~= body + none);
            lemma_i64_prefix(value, none, k);
        },
        ConstantView::Double(bits) => {
            assert(body =~= body + none);
            lemma_u64_prefix(bits, none, k);
        },
        ConstantView::NameAndType { name_index, descriptor_index } => {
            lemma_u16_pair_truncated(name_index, descriptor_index, k);
        },
        ConstantView::Utf8(text) => {
            let data = encode_utf8(text);
            assert(body =~= bytes_u16(data.len() as u16) + (data + none));
            lemma_u16_prefix(data.len() as u16, data + none, k);
            if k >= 2 {
                lemma_bytes_prefix(data, none, k - 2);
            }
        },
        ConstantView::MethodHandle { reference_kind, reference_index } => {
            assert(body =~= seq![reference_kind] + (bytes_u16(reference_index) + none));
            lemma_u8_prefix(reference_kind, bytes_u16(reference_index) + none, k);
            if k >= 1 {
                lemma_u16_prefix(reference_index, none, k - 1);
            }
        },
        ConstantView::MethodType { descriptor_index } => {
            assert(body =~= bytes_u16(descriptor_index) + none);
            lemma_u16_prefix(descriptor_index, none, k);
        },
        ConstantView::InvokeDynamic { bootstrap_method_attr_index, name_and_type_index } => {
            lemma_u16_pair_truncated(bootstrap_method_attr_index, name_and_type_index, k);
        },
    }
}

/// Two 16-bit fields cut short give a wrong length.
pub proof fn lemma_u16_pair_truncated(a: u16, b: u16, k: int)
    requires
        0 <= k < 4,
    ensures
        parse_u16_pair((bytes_u16(a) + bytes_u16(b)).take(k)) == Err::<
            ((u16, u16), Seq<u8>),
            ErrorView,
        >(ErrorView::InvalidLength),
{
    let none = Seq::<u8>::empty();
    assert(bytes_u16(a) + bytes_u16(b) =~= bytes_u16(a) + (bytes_u16(b) + none));
    lemma_u16_prefix(a, bytes_u16(b) + none, k);
    if k >= 2 {
        lemma_u16_prefix(b, none, k - 2);
    }
}

/// The name of the kind of a constant.
pub open spec fn constant_kind_name(v: ConstantView) -> Seq<char> {
    match v {
        ConstantView::Class { .. } => "Constant::Class"@,
        ConstantView::FieldRef { .. } => "Constant::FieldRef"@,
        ConstantView::MethodRef { .. } => "Constant::MethodRef"@,
        ConstantView::InterfaceMethodRef { .. } => "Constant::InterfaceMethodRef"@,
        ConstantView::String { .. } => "Constant::String"@,
        ConstantView::Integer(_) => "Constant::Integer"@,
        ConstantView::Float(_) => "Constant::Float"@,
        ConstantView::Long(_) => "Constant::Long"@,
        ConstantView::Double(_) => "Constant::Double"@,
        ConstantView::NameAndType { .. } => "Constant::NameAndType"@,
        ConstantView::Utf8(_) => "Constant::Utf8"@,
        ConstantView::MethodHandle { .. } => "Constant::MethodHandle"@,
        ConstantView::MethodType { .. } => "Constant::MethodType"@,
        ConstantView::InvokeDynamic { .. } => "Constant::InvokeDynamic"@,
    }
}

impl Constant {
    /// The name of the kind of the constant, as it is shown to a reader.
    pub fn kind_name(&self) -> (name: &'static str)
        ensures
            name@ == constant_kind_name(self.deep_view()),
    {
        match self {
            Constant::Class { .. } => "Constant::Class",
            Constant::FieldRef { .. } => "Constant::FieldRef",
            Constant::MethodRef { .. } => "Constant::MethodRef",
            Constant::InterfaceMethodRef { .. } => "Constant::InterfaceMethodRef",
            Constant::String { .. } => "Constant::String",
            Constant::Integer(..) => "Constant::Integer",
            Constant::Float(..) => "Constant::Float",
            Constant::Long(..) => "Constant::Long",
            Constant::Double(..) => "Constant::Double",
            Constant::NameAndType { .. } => "Constant::NameAndType",
            Constant::Utf8(..) => "Constant::Utf8",
            Constant::MethodHandle { .. } => "Constant::MethodHandle",
            Constant::MethodType { .. } => "Constant::MethodType",
            Constant::InvokeDynamic { .. } => "Constant::InvokeDynamic",
        }
    }

    /// Appends the bytes of the constant to `out` and returns how many they
    /// are. A constant that has no bytes leaves `out` as it was.
    pub fn to_buf(&self, out: &mut Vec<u8>) -> (r: Result<usize, Error>)
        ensures
            encodes(r, old(out)@, final(out)@, Self::wire(self.deep_view())),
            r is Err ==> final(out)@ == old(out)@,
    {
        let start = out.len();
        match self {
            Constant::Class { name_index } => {
                push_u8(out, 7);
                push_u16(out, *name_index);
            },
            Constant::FieldRef { class_index, name_and_type_index } => {
                push_u8(out, 9);
                push_u16(out, *class_index);
                push_u16(out, *name_and_type_index);
            },
            Constant::MethodRef { class_index, name_and_type_index } => {
                push_u8(out, 10);
                push_u16(out, *class_index);
                push_u16(out, *name_and_type_index);
            },
            Constant::InterfaceMethodRef { class_index, name_and_type_index } => {
                push_u8(out, 11);
                push_u16(out, *class_index);
                push_u16(out, *name_and_type_index);
            },
            Constant::String { string_index } => {
                push_u8(out, 8);
                push_u16(out, *string_index);
            },
            Constant::Integer(value) => {
                push_u8(out, 3);
                push_i32(out, *value);
            },
            Constant::Float(bits) => {
                push_u8(out, 4);
                push_u32(out, *bits);
            },
            Constant::Long(value) => {
                push_u8(out, 5);
                push_i64(out, *value);
            },
            Constant::Double(bits) => {
                push_u8(out, 6);
                push_u64(out, *bits);
            },
            Constant::NameAndType { name_index, descriptor_index } => {
                push_u8(out, 12);
                push_u16(out, *name_index);
                push_u16(out, *descriptor_index);
            },
            Constant::Utf8(text) => {
                let bytes = text.as_str().as_bytes_vec();
                if bytes.len() > 65535 {
                    return Err(Error::InvalidLength);
                }
                push_u8(out, 1);
                let _ = write_bytes(&bytes, out);
            },
            Constant::MethodHandle { reference_kind, reference_index } => {
                push_u8(out, 15);
                push_u8(out, *reference_kind);
                push_u16(out, *reference_index);
            },
            Constant::MethodType { descriptor_index } => {
                push_u8(out, 16);
                push_u16(out, *descriptor_index);
            },
            Constant::InvokeDynamic { bootstrap_method_attr_index, name_and_type_index } => {
                push_u8(out, 18);
                push_u16(out, *bootstrap_method_attr_index);
                push_u16(out, *name_and_type_index);
            },
        }
        proof {
            let v = self.deep_view();
            assert(out@ =~= old(out)@ + (seq![constant_tag(v)] + wire_constant_body(v)->Ok_0));
        }
        Ok(out.len() - start)
    }
}

/// The text of the `Utf8` entry at `index`, counting from 1. Index 0, an index
/// past the end and an entry of another kind give `None`.
pub open spec fn pool_utf8(pool: Seq<ConstantView>, index: int) -> Option<Seq<char>> {
    if 1 <= index <= pool.len() {
        match pool[index - 1] {
            ConstantView::Utf8(text) => Some(text),
            _ => None,
        }
    } else {
        None
    }
}

/// The name of the class that the `Class` entry at `index` refers to.
pub open spec fn pool_class_name(pool: Seq<ConstantView>, index: int) -> Option<Seq<char>> {
    if 1 <= index <= pool.len() {
        match pool[index - 1] {
            ConstantView::Class { name_index } => pool_utf8(pool, name_index as int),
            _ => None,
        }
    } else {
        None
    }
}

/// The text of the `Utf8` entry at `index`, counting from 1. Index 0 is
/// looked up nowhere.
pub fn get_utf8(constant_pool: &Vec<Constant>, index: usize) -> (r: Option<&String>)
    ensures
        match pool_utf8(constant_pool.deep_view(), index as int) {
            Some(text) => r is Some && r->Some_0@ == text,
            None => r is None,
        },
        index == 0 ==> r is None,
{
    if index == 0 || index > constant_pool.len() {
        return None;
    }
    match &constant_pool[index - 1] {
        Constant::Utf8(text) => Some(text),
        _ => None,
    }
}

/// The name of the class that the `Class` entry at `index` refers to. Index
/// 0 is looked up nowhere.
pub fn get_class_name(constant_pool: &Vec<Constant>, index: usize) -> (r: Option<&String>)
    ensures
        match pool_class_name(constant_pool.deep_view(), index as int) {
            Some(text) => r is Some && r->Some_0@ == text,
            None => r is None,
        },
        index == 0 ==> r is None,
{
    if index == 0 || index > constant_pool.len() {
        return None;
    }
    match &constant_pool[index - 1] {
        Constant::Class { name_index } => get_utf8(constant_pool, *name_index as usize),
        _ => None,
    }
}

/// The entries of a pool whose count field holds `count`: one fewer than the
/// count says. A count of 0 is refused.
pub open spec fn parse_pool(s: Seq<u8>, count: u16) -> Parsed<Seq<ConstantView>> {
    if count == 0 {
        Err(ErrorView::InvalidLength)
    } else {
        parse_seq::<Constant>(s, (count - 1) as nat)
    }
}

/// Reads the entries of a pool whose count field held `count`.
pub fn decode_pool(buf: &mut BytesMut, count: u16) -> (r: Result<Vec<Constant>, Error>)
    ensures
        decodes(r, unread(*old(buf)), unread(*final(buf)), parse_pool(unread(*old(buf)), count)),
{
    if count == 0 {
        return Err(Error::InvalidLength);
    }
    read_seq::<Constant>(buf, (count - 1) as usize)
}

/// Appends the entries of a pool, without a count, and returns how many bytes
/// they took. A pool with an entry that has no bytes leaves `out` as it was.
pub fn encode_pool(pool: &Vec<Constant>, out: &mut Vec<u8>) -> (r: Result<usize, Error>)
    ensures
        encodes(r, old(out)@, final(out)@, wire_seq::<Constant>(pool.deep_view())),
        r is Err ==> final(out)@ == old(out)@,
{
    let start = out.len();
    let r = write_seq::<Constant>(pool, out);
    crate::wire::settle(out, start, r)
}

/// Index 0 refers to nothing, and index 1 to the first entry of the pool.
pub proof fn lemma_pool_counts_from_one(pool: Seq<ConstantView>)
    ensures
        pool_utf8(pool, 0) is None,
        pool_class_name(pool, 0) is None,
        pool.len() > 0 ==> pool_utf8(pool, 1) == match pool[0] {
            ConstantView::Utf8(text) => Some(text),
            _ => None::<Seq<char>>,
        },
{
}

/// The entries that a pool is decoded to stand at the indices in the order
/// in which they were read: entry `i` of the bytes is found at index `i + 1`.
pub proof fn lemma_pool_keeps_order(entries: Seq<ConstantView>, tail: Seq<u8>, i: int)
    requires
        wire_seq::<Constant>(entries) is Ok,
        entries.len() < 65535,
        0 <= i < entries.len(),
    ensures
        parse_pool(wire_seq::<Constant>(entries)->Ok_0 + tail, (entries.len() + 1) as u16) == Ok::<
            (Seq<ConstantView>, Seq<u8>),
            ErrorView,
        >((entries, tail)),
        pool_utf8(entries, i + 1) == match entries[i] {
            ConstantView::Utf8(text) => Some(text),
            _ => None::<Seq<char>>,
        },
{
    crate::codec::lemma_seq_round_trip::<Constant>(entries, tail);
}

/// A `Utf8` entry survives byte for byte: valid UTF-8 bytes behind the tag
/// byte 1 and their length decode to their text, and that text is encoded as
/// the very same bytes.
pub proof fn lemma_utf8_entry_survives(data: Seq<u8>, tail: Seq<u8>)
    requires
        vstd::utf8::valid_utf8(data),
        data.len() <= 65535,
    ensures
        Constant::parse(seq![1u8] + (bytes_u16(data.len() as u16) + data) + tail) == Ok::<
            (ConstantView, Seq<u8>),
            ErrorView,
        >((ConstantView::Utf8(vstd::utf8::decode_utf8(data)), tail)),
        Constant::wire(ConstantView::Utf8(vstd::utf8::decode_utf8(data))) == Ok::<
            Seq<u8>,
            ErrorView,
        >(seq![1u8] + (bytes_u16(data.len() as u16) + data)),
{
    crate::lemma_text_survives(data);
    let text = vstd::utf8::decode_utf8(data);
    Constant::lemma_round_trip(ConstantView::Utf8(text), tail);
}

} // verus!
