//! The class file as a whole: the fixed layout that ties the constant pool,
//! the fields, the methods and the attributes together.

use vstd::prelude::*;
use bytes::BytesMut;
use crate::attribute::decode::decode_attribute_table;
use crate::attribute::encode::write_attribute_table;
use crate::attribute::laws::{
    attributes_canonical, lemma_attribute_table_prefix, lemma_attribute_table_round_trip,
};
use crate::attribute::{parse_attribute_table, wire_attribute_table, Attribute, AttributeView};
use crate::codec::{
    join, lemma_seq_exact, lemma_seq_prefix, lemma_seq_round_trip, lemma_table16_prefix,
    lemma_table16_round_trip, parse_table16, read_table16, wire_seq, wire_table16, write_table16,
    Wire,
};
use crate::constant::{decode_pool, encode_pool, parse_pool, Constant, ConstantView};
use crate::error::Error;
use crate::error::ErrorView;
use crate::field::{FieldInfo, FieldInfoView};
use crate::member::{
    lemma_member_table_prefix, lemma_member_table_round_trip, parse_member_table,
    read_member_table, wire_member_table, write_member_table, Member,
};
use crate::method::{MethodInfo, MethodInfoView};
use crate::wire::{
    buf_from_slice, lemma_u16_exact, lemma_u16_prefix, lemma_u32_exact, lemma_u32_prefix, settle,
};
use crate::wire::{
    bytes_u16, bytes_u32, decodes, encodes, lemma_u16_round_trip, lemma_u32_round_trip,
    parse_u16, parse_u32, push_u16, push_u32, read_u16, read_u32, unread, Parsed, Wired,
};
use crate::ConstantPoolRef;
use crate::MAGIC;

verus! {

/// A class file that several owners share.
pub type ClassFileRef = std::sync::Arc<ClassFile>;

/// A decoded class file. Every index field counts the constant pool from 1;
/// index 0 refers to nothing.
#[derive(Debug, PartialEq, Eq)]
pub struct ClassFile {
    pub magic: u32,
    pub minor_version: u16,
    pub major_version: u16,
    pub constant_pool: ConstantPoolRef,
    pub access_flags: u16,
    pub this_class: u16,
    pub super_class: u16,
    /// The `Class` constants that the interface table points at.
    pub interfaces: Vec<Constant>,
    pub fields: Vec<FieldInfo>,
    pub methods: Vec<MethodInfo>,
    pub attributes: Vec<Attribute>,
}

/// The model of a [`ClassFile`].
pub struct ClassFileView {
    pub magic: u32,
    pub minor_version: u16,
    pub major_version: u16,
    pub constant_pool: Seq<ConstantView>,
    pub access_flags: u16,
    pub this_class: u16,
    pub super_class: u16,
    pub interfaces: Seq<ConstantView>,
    pub fields: Seq<FieldInfoView>,
    pub methods: Seq<MethodInfoView>,
    pub attributes: Seq<AttributeView>,
}

impl DeepView for ClassFile {
    type V = ClassFileView;

    open spec fn deep_view(&self) -> ClassFileView {
        ClassFileView {
            magic: self.magic,
            minor_version: self.minor_version,
            major_version: self.major_version,
            constant_pool: self.constant_pool.deep_view(),
            access_flags: self.access_flags,
            this_class: self.this_class,
            super_class: self.super_class,
            interfaces: self.interfaces.deep_view(),
            fields: self.fields.deep_view(),
            methods: self.methods.deep_view(),
            attributes: self.attributes.deep_view(),
        }
    }
}

/// The `Class` constant at `index`, counting from 1.
pub open spec fn pool_class(pool: Seq<ConstantView>, index: u16) -> Option<ConstantView> {
    if 1 <= index <= pool.len() && pool[index - 1] is Class {
        Some(pool[index - 1])
    } else {
        None
    }
}

/// The `Class` constants that the indices of an interface table point at. An
/// index that points at no `Class` constant is a mismatched constant.
pub open spec fn resolve_classes(pool: Seq<ConstantView>, indices: Seq<u16>) -> Result<
    Seq<ConstantView>,
    ErrorView,
> {
    if forall|i: int| 0 <= i < indices.len() ==> (#[trigger] pool_class(pool, indices[i])) is Some {
        Ok(Seq::new(indices.len(), |i: int| pool_class(pool, indices[i])->Some_0))
    } else {
        Err(ErrorView::MismatchConstantType)
    }
}

/// The first index from `from` on, counting from 0, at which the pool holds
/// `c`, as an index that counts from 1.
pub open spec fn first_index_from(pool: Seq<ConstantView>, c: ConstantView, from: nat) -> Option<
    u16,
>
    decreases pool.len() - from,
{
    if from >= pool.len() || from >= 65535 {
        None
    } else if pool[from as int] == c {
        Some((from + 1) as u16)
    } else {
        first_index_from(pool, c, from + 1)
    }
}

/// The first index, counting from 1, at which the pool holds the `Class`
/// constant `c`.
pub open spec fn class_index(pool: Seq<ConstantView>, c: ConstantView) -> Option<u16> {
    if c is Class {
        first_index_from(pool, c, 0)
    } else {
        None
    }
}

/// The indices that stand for the interfaces in the interface table. An
/// interface that is no `Class` constant of the pool is a mismatched constant.
pub open spec fn class_indices(pool: Seq<ConstantView>, interfaces: Seq<ConstantView>) -> Result<
    Seq<u16>,
    ErrorView,
> {
    if forall|i: int|
        0 <= i < interfaces.len() ==> (#[trigger] class_index(pool, interfaces[i])) is Some {
        Ok(Seq::new(interfaces.len(), |i: int| class_index(pool, interfaces[i])->Some_0))
    } else {
        Err(ErrorView::MismatchConstantType)
    }
}

/// The class file that the bytes start with, and the bytes after it.
pub open spec fn parse_class_file(s: Seq<u8>) -> Parsed<ClassFileView> {
    match parse_u32(s) {
        Err(e) => Err(e),
        Ok((magic, s1)) => if magic != MAGIC {
            Err(ErrorView::InvalidMagic)
        } else {
            match parse_u16(s1) {
                Err(e) => Err(e),
                Ok((minor_version, s2)) => match parse_u16(s2) {
                    Err(e) => Err(e),
                    Ok((major_version, s3)) => match parse_u16(s3) {
                        Err(e) => Err(e),
                        Ok((count, s4)) => match parse_pool(s4, count) {
                            Err(e) => Err(e),
                            Ok((constant_pool, s5)) => parse_class_body(
                                magic,
                                minor_version,
                                major_version,
                                constant_pool,
                                s5,
                            ),
                        },
                    },
                },
            }
        },
    }
}

/// What follows the constant pool in a class file.
pub open spec fn parse_class_body(
    magic: u32,
    minor_version: u16,
    major_version: u16,
    constant_pool: Seq<ConstantView>,
    s: Seq<u8>,
) -> Parsed<ClassFileView> {
    match parse_u16(s) {
        Err(e) => Err(e),
        Ok((access_flags, s1)) => match parse_u16(s1) {
            Err(e) => Err(e),
            Ok((this_class, s2)) => match parse_u16(s2) {
                Err(e) => Err(e),
                Ok((super_class, s3)) => match parse_table16::<u16>(s3) {
                    Err(e) => Err(e),
                    Ok((indices, s4)) => match resolve_classes(constant_pool, indices) {
                        Err(e) => Err(e),
                        Ok(interfaces) => match parse_member_table::<FieldInfo>(s4, constant_pool) {
                            Err(e) => Err(e),
                            Ok((fields, s5)) => match parse_member_table::<MethodInfo>(
                                s5,
                                constant_pool,
                            ) {
                                Err(e) => Err(e),
                                Ok((methods, s6)) => match parse_attribute_table(s6, constant_pool) {
                                    Err(e) => Err(e),
                                    Ok((attributes, rest)) => Ok(
                                        (
                                            ClassFileView {
                                                magic,
                                                minor_version,
                                                major_version,
                                                constant_pool,
                                                access_flags,
                                                this_class,
                                                super_class,
                                                interfaces,
                                                fields,
                                                methods,
                                                attributes,
                                            },
                                            rest,
                                        ),
                                    ),
                                },
                            },
                        },
                    },
                },
            },
        },
    }
}

/// The bytes of the interface table.
pub open spec fn wire_interfaces(pool: Seq<ConstantView>, interfaces: Seq<ConstantView>) -> Wired {
    match class_indices(pool, interfaces) {
        Err(e) => Err(e),
        Ok(indices) => wire_table16::<u16>(indices),
    }
}

/// The bytes of a class file up to and with the count of the constant pool.
pub open spec fn wire_class_head(v: ClassFileView) -> Seq<u8> {
    bytes_u32(v.magic) + (bytes_u16(v.minor_version) + (bytes_u16(v.major_version) + bytes_u16(
        (v.constant_pool.len() + 1) as u16,
    )))
}

/// The bytes of a class file after the constant pool.
pub open spec fn wire_class_body(v: ClassFileView) -> Wired {
    join(
        Ok(bytes_u16(v.access_flags) + (bytes_u16(v.this_class) + bytes_u16(v.super_class))),
        join(
            wire_interfaces(v.constant_pool, v.interfaces),
            join(
                wire_member_table::<FieldInfo>(v.fields),
                join(wire_member_table::<MethodInfo>(v.methods), wire_attribute_table(v.attributes)),
            ),
        ),
    )
}

/// The bytes of a class file. A magic number other than `CA FE BA BE` is
/// refused, and so is a pool whose count does not fit in 16 bits.
pub open spec fn wire_class_file(v: ClassFileView) -> Wired {
    if v.magic != MAGIC {
        Err(ErrorView::InvalidMagic)
    } else if v.constant_pool.len() + 1 > 65535 {
        Err(ErrorView::InvalidLength)
    } else {
        join(Ok(wire_class_head(v)), join(wire_seq::<Constant>(v.constant_pool), wire_class_body(v)))
    }
}

/// Looks up the `Class` constants that the indices of an interface table
/// point at.
pub fn resolve_interfaces(pool: &Vec<Constant>, indices: &Vec<u16>) -> (r: Result<
    Vec<Constant>,
    Error,
>)
    ensures
        match resolve_classes(pool.deep_view(), indices.deep_view()) {
            Ok(list) => r is Ok && r->Ok_0.deep_view() == list,
            Err(e) => r is Err && r->Err_0@ == e,
        },
{
    let ghost pv = pool.deep_view();
    let ghost iv = indices.deep_view();
    let mut list: Vec<Constant> = Vec::new();
    let mut i: usize = 0;
    while i < indices.len()
        invariant
            i <= indices.len(),
            list.len() == i,
            pv == pool.deep_view(),
            iv == indices.deep_view(),
            forall|j: int|
                0 <= j < i ==> (#[trigger] pool_class(pv, iv[j])) == Some(list@[j].deep_view()),
        decreases indices.len() - i,
    {
        let index = indices[i] as usize;
        proof {
            assert(iv[i as int] == indices@[i as int]);
        }
        if index == 0 || index > pool.len() {
            proof {
                assert(pool_class(pv, iv[i as int]) is None);
            }
            return Err(Error::MismatchConstantType);
        }
        proof {
            assert(pv[index - 1] == pool@[index - 1].deep_view());
        }
        match &pool[index - 1] {
            Constant::Class { name_index } => {
                list.push(Constant::Class { name_index: *name_index });
            },
            _ => {
                proof {
                    assert(pool_class(pv, iv[i as int]) is None);
                }
                return Err(Error::MismatchConstantType);
            },
        }
        i += 1;
    }
    proof {
        let found = resolve_classes(pv, iv)->Ok_0;
        assert(list.deep_view() =~= found);
    }
    Ok(list)
}

/// Finds the first index, counting from 1, at which the pool holds the
/// `Class` constant `c`.
pub fn find_class_index(pool: &Vec<Constant>, c: &Constant) -> (r: Option<u16>)
    ensures
        r == class_index(pool.deep_view(), c.deep_view()),
{
    match c {
        Constant::Class { name_index } => {
            let ghost pv = pool.deep_view();
            let ghost cv = c.deep_view();
            let mut k: usize = 0;
            while k < pool.len() && k < 65535
                invariant
                    k <= pool.len(),
                    k <= 65535,
                    pv == pool.deep_view(),
                    cv == c.deep_view(),
                    cv == (ConstantView::Class { name_index: *name_index }),
                    class_index(pv, cv) == first_index_from(pv, cv, k as nat),
                decreases pool.len() - k,
            {
                proof {
                    assert(pv[k as int] == pool@[k as int].deep_view());
                }
                let same = match &pool[k] {
                    Constant::Class { name_index: other } => *other == *name_index,
                    _ => false,
                };
                if same {
                    return Some((k + 1) as u16);
                }
                k += 1;
            }
            None
        },
        _ => None,
    }
}

/// Finds the indices that stand for the interfaces in the interface table.
pub fn interface_indices(pool: &Vec<Constant>, interfaces: &Vec<Constant>) -> (r: Result<
    Vec<u16>,
    Error,
>)
    ensures
        match class_indices(pool.deep_view(), interfaces.deep_view()) {
            Ok(indices) => r is Ok && r->Ok_0.deep_view() == indices,
            Err(e) => r is Err && r->Err_0@ == e,
        },
{
    let ghost pv = pool.deep_view();
    let ghost iv = interfaces.deep_view();
    let mut indices: Vec<u16> = Vec::new();
    let mut i: usize = 0;
    while i < interfaces.len()
        invariant
            i <= interfaces.len(),
            indices.len() == i,
            pv == pool.deep_view(),
            iv == interfaces.deep_view(),
            forall|j: int| 0 <= j < i ==> (#[trigger] class_index(pv, iv[j])) == Some(indices@[j]),
        decreases interfaces.len() - i,
    {
        proof {
            assert(iv[i as int] == interfaces@[i as int].deep_view());
        }
        match find_class_index(pool, &interfaces[i]) {
            Some(index) => {
                indices.push(index);
            },
            None => {
                proof {
                    assert(class_index(pv, iv[i as int]) is None);
                }
                return Err(Error::MismatchConstantType);
            },
        }
        i += 1;
    }
    proof {
        let found = class_indices(pv, iv)->Ok_0;
        assert(indices.deep_view() =~= found);
    }
    Ok(indices)
}

/// Reads a class file from the front of the buffer.
pub fn decode_class_file(buf: &mut BytesMut) -> (r: Result<ClassFile, Error>)
    ensures
        decodes(r, unread(*old(buf)), unread(*final(buf)), parse_class_file(unread(*old(buf)))),
{
    let magic = read_u32(buf)?;
    if magic != MAGIC {
        return Err(Error::InvalidMagic);
    }
    let minor_version = read_u16(buf)?;
    let major_version = read_u16(buf)?;
    let count = read_u16(buf)?;
    let pool = decode_pool(buf, count)?;
    let access_flags = read_u16(buf)?;
    let this_class = read_u16(buf)?;
    let super_class = read_u16(buf)?;
    let indices = read_table16::<u16>(buf)?;
    let interfaces = resolve_interfaces(&pool, &indices)?;
    let fields = read_member_table::<FieldInfo>(buf, &pool)?;
    let methods = read_member_table::<MethodInfo>(buf, &pool)?;
    let attributes = decode_attribute_table(buf, &pool)?;
    Ok(
        ClassFile {
            magic,
            minor_version,
            major_version,
            constant_pool: std::sync::Arc::new(pool),
            access_flags,
            this_class,
            super_class,
            interfaces,
            fields,
            methods,
            attributes,
        },
    )
}

/// Decodes the class file that the bytes start with. What follows it in the
/// bytes is not looked at.
pub fn decode_class_bytes(bytes: &[u8]) -> (r: Result<ClassFile, Error>)
    ensures
        match parse_class_file(bytes@) {
            Ok((class_file, rest)) => r is Ok && r->Ok_0.deep_view() == class_file,
            Err(e) => r is Err && r->Err_0@ == e,
        },
{
    let mut buf = buf_from_slice(bytes);
    decode_class_file(&mut buf)
}

fn write_class_body(class_file: &ClassFile, out: &mut Vec<u8>) -> (r: Result<usize, Error>)
    ensures
        encodes(r, old(out)@, final(out)@, wire_class_body(class_file.deep_view())),
{
    let start = out.len();
    push_u16(out, class_file.access_flags);
    push_u16(out, class_file.this_class);
    push_u16(out, class_file.super_class);
    let ghost mid = bytes_u16(class_file.access_flags) + (bytes_u16(class_file.this_class)
        + bytes_u16(class_file.super_class));
    proof {
        assert(out@ =~= old(out)@ + mid);
    }
    let indices = interface_indices(&class_file.constant_pool, &class_file.interfaces)?;
    write_table16::<u16>(&indices, out)?;
    let ghost s1 = out@;
    write_member_table::<FieldInfo>(&class_file.fields, out)?;
    let ghost s2 = out@;
    write_member_table::<MethodInfo>(&class_file.methods, out)?;
    let ghost s3 = out@;
    write_attribute_table(&class_file.attributes, out)?;
    proof {
        let v = class_file.deep_view();
        let interfaces = wire_interfaces(v.constant_pool, v.interfaces)->Ok_0;
        let fields = wire_member_table::<FieldInfo>(v.fields)->Ok_0;
        let methods = wire_member_table::<MethodInfo>(v.methods)->Ok_0;
        let attributes = wire_attribute_table(v.attributes)->Ok_0;
        assert(s1 == (old(out)@ + mid) + interfaces);
        assert(s2 == s1 + fields);
        assert(s3 == s2 + methods);
        assert(out@ == s3 + attributes);
        assert(out@ =~= old(out)@ + (mid + (interfaces + (fields + (methods + attributes)))));
    }
    Ok(out.len() - start)
}

fn write_class_file(class_file: &ClassFile, out: &mut Vec<u8>) -> (r: Result<usize, Error>)
    ensures
        encodes(r, old(out)@, final(out)@, wire_class_file(class_file.deep_view())),
{
    let start = out.len();
    if class_file.magic != MAGIC {
        return Err(Error::InvalidMagic);
    }
    if class_file.constant_pool.len() >= 65535 {
        return Err(Error::InvalidLength);
    }
    push_u32(out, class_file.magic);
    push_u16(out, class_file.minor_version);
    push_u16(out, class_file.major_version);
    push_u16(out, (class_file.constant_pool.len() + 1) as u16);
    let ghost head = wire_class_head(class_file.deep_view());
    proof {
        assert(out@ =~= old(out)@ + head);
    }
    encode_pool(&class_file.constant_pool, out)?;
    let ghost after_pool = out@;
    write_class_body(class_file, out)?;
    proof {
        let v = class_file.deep_view();
        let pool = wire_seq::<Constant>(v.constant_pool)->Ok_0;
        let body = wire_class_body(v)->Ok_0;
        assert(after_pool == (old(out)@ + head) + pool);
        assert(out@ == after_pool + body);
        assert(out@ =~= old(out)@ + (head + (pool + body)));
    }
    Ok(out.len() - start)
}

/// Appends the bytes of a class file to `out` and returns how many they are.
/// A class file that has no bytes leaves `out` as it was.
pub fn encode_class_file(class_file: &ClassFile, out: &mut Vec<u8>) -> (r: Result<usize, Error>)
    ensures
        encodes(r, old(out)@, final(out)@, wire_class_file(class_file.deep_view())),
        r is Err ==> final(out)@ == old(out)@,
{
    let start = out.len();
    let r = write_class_file(class_file, out);
    settle(out, start, r)
}

impl<'a> crate::TryInto<&'a mut Vec<u8>, usize> for ClassFile {
    type Error = Error;

    fn try_into_buf(&self, out: &'a mut Vec<u8>) -> (r: Result<usize, Error>)
        ensures
            encodes(r, old(out)@, final(out)@, wire_class_file(self.deep_view())),
            r is Err ==> final(out)@ == old(out)@,
    {
        encode_class_file(self, out)
    }
}

/// A class file is as the decoder would hand it out: its fields, its methods
/// and its attributes are so with its own constant pool.
pub open spec fn class_file_canonical(v: ClassFileView) -> bool {
    &&& forall|i: int|
        0 <= i < v.fields.len() ==> FieldInfo::canonical(#[trigger] v.fields[i], v.constant_pool)
    &&& forall|i: int|
        0 <= i < v.methods.len() ==> MethodInfo::canonical(#[trigger] v.methods[i], v.constant_pool)
    &&& attributes_canonical(v.attributes, v.constant_pool)
}

proof fn lemma_first_index_found(pool: Seq<ConstantView>, c: ConstantView, from: nat)
    requires
        first_index_from(pool, c, from) is Some,
    ensures
        1 <= first_index_from(pool, c, from)->Some_0 <= pool.len(),
        pool[first_index_from(pool, c, from)->Some_0 - 1] == c,
    decreases pool.len() - from,
{
    if from >= pool.len() || from >= 65535 {
    } else if pool[from as int] == c {
    } else {
        lemma_first_index_found(pool, c, from + 1);
    }
}

/// The indices that stand for the interfaces lead back to the interfaces.
pub proof fn lemma_interfaces_round_trip(pool: Seq<ConstantView>, interfaces: Seq<ConstantView>)
    requires
        class_indices(pool, interfaces) is Ok,
    ensures
        resolve_classes(pool, class_indices(pool, interfaces)->Ok_0) == Ok::<
            Seq<ConstantView>,
            ErrorView,
        >(interfaces),
{
    let indices = class_indices(pool, interfaces)->Ok_0;
    assert forall|i: int| 0 <= i < indices.len() implies (#[trigger] pool_class(pool, indices[i]))
        == Some(interfaces[i]) by {
        assert(class_index(pool, interfaces[i]) is Some);
        lemma_first_index_found(pool, interfaces[i], 0);
    }
    assert(resolve_classes(pool, indices)->Ok_0 =~= interfaces);
}

/// Decoding the bytes of a class file gives the class file back, where the
/// class file is as the decoder would hand it out.
pub proof fn lemma_class_file_round_trip(v: ClassFileView, tail: Seq<u8>)
    requires
        wire_class_file(v) is Ok,
        class_file_canonical(v),
    ensures
        parse_class_file(wire_class_file(v)->Ok_0 + tail) == Ok::<(ClassFileView, Seq<u8>), ErrorView>(
            (v, tail),
        ),
{
    let pool = wire_seq::<Constant>(v.constant_pool)->Ok_0;
    let body = wire_class_body(v)->Ok_0;
    let count = (v.constant_pool.len() + 1) as u16;
    let s = wire_class_file(v)->Ok_0 + tail;
    let s5 = body + tail;
    let s4 = pool + s5;
    let s3 = bytes_u16(count) + s4;
    let s2 = bytes_u16(v.major_version) + s3;
    let s1 = bytes_u16(v.minor_version) + s2;
    assert(s =~= bytes_u32(v.magic) + s1);
    lemma_u32_round_trip(v.magic, s1);
    lemma_u16_round_trip(v.minor_version, s2);
    lemma_u16_round_trip(v.major_version, s3);
    lemma_u16_round_trip(count, s4);
    lemma_seq_round_trip::<Constant>(v.constant_pool, s5);
    lemma_class_body_round_trip(v, tail);
}

proof fn lemma_class_body_round_trip(v: ClassFileView, tail: Seq<u8>)
    requires
        wire_class_body(v) is Ok,
        class_file_canonical(v),
    ensures
        parse_class_body(
            v.magic,
            v.minor_version,
            v.major_version,
            v.constant_pool,
            wire_class_body(v)->Ok_0 + tail,
        ) == Ok::<(ClassFileView, Seq<u8>), ErrorView>((v, tail)),
{
    let pool = v.constant_pool;
    let indices = class_indices(pool, v.interfaces)->Ok_0;
    let interfaces = wire_table16::<u16>(indices)->Ok_0;
    let fields = wire_member_table::<FieldInfo>(v.fields)->Ok_0;
    let methods = wire_member_table::<MethodInfo>(v.methods)->Ok_0;
    let attributes = wire_attribute_table(v.attributes)->Ok_0;
    let s = wire_class_body(v)->Ok_0 + tail;
    let s6 = attributes + tail;
    let s5 = methods + s6;
    let s4 = fields + s5;
    let s3 = interfaces + s4;
    let s2 = bytes_u16(v.super_class) + s3;
    let s1 = bytes_u16(v.this_class) + s2;
    assert(s =~= bytes_u16(v.access_flags) + s1);
    lemma_u16_round_trip(v.access_flags, s1);
    lemma_u16_round_trip(v.this_class, s2);
    lemma_u16_round_trip(v.super_class, s3);
    lemma_table16_round_trip::<u16>(indices, s4);
    lemma_interfaces_round_trip(pool, v.interfaces);
    lemma_member_table_round_trip::<FieldInfo>(v.fields, pool, s5);
    lemma_member_table_round_trip::<MethodInfo>(v.methods, pool, s6);
    lemma_attribute_table_round_trip(v.attributes, pool, tail);
}

/// Decoding the bytes of a class file that were cut short, wherever, meets a
/// wrong length and nothing else, where the class file is as the decoder
/// would hand it out.
pub proof fn lemma_class_file_truncated(v: ClassFileView, k: int)
    requires
        wire_class_file(v) is Ok,
        class_file_canonical(v),
        0 <= k < wire_class_file(v)->Ok_0.len(),
    ensures
        parse_class_file(wire_class_file(v)->Ok_0.take(k)) == Err::<
            (ClassFileView, Seq<u8>),
            ErrorView,
        >(ErrorView::InvalidLength),
{
    let pool = wire_seq::<Constant>(v.constant_pool)->Ok_0;
    let body = wire_class_body(v)->Ok_0;
    let count = (v.constant_pool.len() + 1) as u16;
    let none = Seq::<u8>::empty();
    let r5 = body + none;
    let r4 = pool + r5;
    let r3 = bytes_u16(count) + r4;
    let r2 = bytes_u16(v.major_version) + r3;
    let r1 = bytes_u16(v.minor_version) + r2;
    assert(wire_class_file(v)->Ok_0 =~= bytes_u32(v.magic) + r1);
    lemma_u32_prefix(v.magic, r1, k);
    if k >= 4 {
        lemma_u16_prefix(v.minor_version, r2, k - 4);
        if k >= 6 {
            lemma_u16_prefix(v.major_version, r3, k - 6);
            if k >= 8 {
                lemma_u16_prefix(count, r4, k - 8);
                if k >= 10 {
                    lemma_seq_prefix::<Constant>(v.constant_pool, r5, k - 10);
                    if k - 10 >= pool.len() {
                        assert(r5.take(k - 10 - pool.len()) =~= body.take(k - 10 - pool.len()));
                        lemma_class_body_truncated(v, k - 10 - pool.len());
                    }
                }
            }
        }
    }
}

proof fn lemma_class_body_truncated(v: ClassFileView, k: int)
    requires
        wire_class_body(v) is Ok,
        class_file_canonical(v),
        0 <= k < wire_class_body(v)->Ok_0.len(),
    ensures
        parse_class_body(
            v.magic,
            v.minor_version,
            v.major_version,
            v.constant_pool,
            wire_class_body(v)->Ok_0.take(k),
        ) == Err::<(ClassFileView, Seq<u8>), ErrorView>(ErrorView::InvalidLength),
{
    let pool = v.constant_pool;
    let none = Seq::<u8>::empty();
    let indices = class_indices(pool, v.interfaces)->Ok_0;
    let interfaces = wire_table16::<u16>(indices)->Ok_0;
    let fields = wire_member_table::<FieldInfo>(v.fields)->Ok_0;
    let methods = wire_member_table::<MethodInfo>(v.methods)->Ok_0;
    let attributes = wire_attribute_table(v.attributes)->Ok_0;
    let r6 = attributes + none;
    let r5 = methods + r6;
    let r4 = fields + r5;
    let r3 = interfaces + r4;
    let r2 = bytes_u16(v.super_class) + r3;
    let r1 = bytes_u16(v.this_class) + r2;
    assert(wire_class_body(v)->Ok_0 =~= bytes_u16(v.access_flags) + r1);
    lemma_u16_prefix(v.access_flags, r1, k);
    if k >= 2 {
        lemma_u16_prefix(v.this_class, r2, k - 2);
        if k >= 4 {
            lemma_u16_prefix(v.super_class, r3, k - 4);
            if k >= 6 {
                lemma_table16_prefix::<u16>(indices, r4, k - 6);
                if k - 6 >= interfaces.len() {
                    let k4 = k - 6 - interfaces.len();
                    lemma_interfaces_round_trip(pool, v.interfaces);
                    lemma_member_table_prefix::<FieldInfo>(v.fields, pool, r5, k4);
                    if k4 >= fields.len() {
                        let k5 = k4 - fields.len();
                        lemma_member_table_prefix::<MethodInfo>(v.methods, pool, r6, k5);
                        if k5 >= methods.len() {
                            lemma_attribute_table_prefix(
                                v.attributes,
                                pool,
                                none,
                                k5 - methods.len(),
                            );
                        }
                    }
                }
            }
        }
    }
}

/// The constant stands at one index of the pool only.
pub open spec fn occurs_once(pool: Seq<ConstantView>, c: ConstantView) -> bool {
    forall|i: int, j: int|
        0 <= i < pool.len() && 0 <= j < pool.len() && pool[i] == c && pool[j] == c ==> i == j
}

/// Each interface of the class file stands at one index of its pool only, so
/// that the index that stands for it in the interface table is not in doubt.
pub open spec fn interfaces_unambiguous(v: ClassFileView) -> bool {
    forall|i: int|
        0 <= i < v.interfaces.len() ==> occurs_once(v.constant_pool, #[trigger] v.interfaces[i])
}

proof fn lemma_first_index_exists(pool: Seq<ConstantView>, c: ConstantView, from: nat, at: int)
    requires
        from <= at < pool.len(),
        at < 65535,
        pool[at] == c,
    ensures
        first_index_from(pool, c, from) is Some,
        occurs_once(pool, c) ==> first_index_from(pool, c, from) == Some((at + 1) as u16),
    decreases at - from,
{
    if pool[from as int] == c {
    } else {
        lemma_first_index_exists(pool, c, from + 1, at);
    }
}

/// A table of indices of any length up to 65535 can be written.
proof fn lemma_indices_wired(indices: Seq<u16>)
    requires
        indices.len() <= 65535,
    ensures
        wire_seq::<u16>(indices) is Ok,
        wire_table16::<u16>(indices) is Ok,
    decreases indices.len(),
{
    reveal_with_fuel(wire_seq, 2);
    reveal(wire_table16);
    if indices.len() > 0 {
        lemma_indices_wired(indices.skip(1));
    }
}

/// A table of indices that can be written is no longer than 65535.
proof fn lemma_indices_bounded(indices: Seq<u16>)
    requires
        wire_table16::<u16>(indices) is Ok,
    ensures
        indices.len() <= 65535,
{
    reveal(wire_table16);
}

/// The interfaces that indices were resolved to are found in the pool again,
/// and at those very indices where none of them stands in the pool twice.
proof fn lemma_indices_exact(pool: Seq<ConstantView>, indices: Seq<u16>)
    requires
        resolve_classes(pool, indices) is Ok,
        pool.len() < 65535,
    ensures
        class_indices(pool, resolve_classes(pool, indices)->Ok_0) is Ok,
        (forall|i: int|
            0 <= i < indices.len() ==> occurs_once(
                pool,
                #[trigger] resolve_classes(pool, indices)->Ok_0[i],
            )) ==> class_indices(pool, resolve_classes(pool, indices)->Ok_0) == Ok::<
            Seq<u16>,
            ErrorView,
        >(indices),
{
    let found = resolve_classes(pool, indices)->Ok_0;
    assert forall|i: int| 0 <= i < found.len() implies (#[trigger] class_index(pool, found[i]))
        is Some && (occurs_once(pool, found[i]) ==> class_index(pool, found[i]) == Some(
        indices[i],
    )) by {
        assert(pool_class(pool, indices[i]) is Some);
        lemma_first_index_exists(pool, found[i], 0, indices[i] - 1);
    }
    if forall|i: int| 0 <= i < indices.len() ==> occurs_once(pool, #[trigger] found[i]) {
        assert(class_indices(pool, found)->Ok_0 =~= indices);
    }
}

/// A class file that was decoded is as the decoder hands class files out and
/// can be encoded. Where none of its interfaces stands in its pool twice, it
/// is encoded as the very bytes that it was decoded from.
#[verifier::rlimit(50)]
pub proof fn lemma_class_file_exact(s: Seq<u8>)
    requires
        parse_class_file(s) is Ok,
    ensures
        class_file_canonical(parse_class_file(s)->Ok_0.0),
        wire_class_file(parse_class_file(s)->Ok_0.0) is Ok,
        interfaces_unambiguous(parse_class_file(s)->Ok_0.0) ==> wire_class_file(
            parse_class_file(s)->Ok_0.0,
        )->Ok_0 + parse_class_file(s)->Ok_0.1 == s,
{
    let magic = parse_u32(s)->Ok_0.0;
    let s1 = parse_u32(s)->Ok_0.1;
    let minor_version = parse_u16(s1)->Ok_0.0;
    let s2 = parse_u16(s1)->Ok_0.1;
    let major_version = parse_u16(s2)->Ok_0.0;
    let s3 = parse_u16(s2)->Ok_0.1;
    let count = parse_u16(s3)->Ok_0.0;
    let s4 = parse_u16(s3)->Ok_0.1;
    let entries = parse_pool(s4, count)->Ok_0.0;
    let s5 = parse_pool(s4, count)->Ok_0.1;
    assert(parse_class_file(s) == parse_class_body(
        magic,
        minor_version,
        major_version,
        entries,
        s5,
    ));
    let v = parse_class_file(s)->Ok_0.0;
    let rest = parse_class_file(s)->Ok_0.1;
    lemma_u32_exact(s);
    lemma_u16_exact(s1);
    lemma_u16_exact(s2);
    lemma_u16_exact(s3);
    lemma_seq_exact::<Constant>(s4, (count - 1) as nat);
    lemma_class_body_exact(magic, minor_version, major_version, entries, s5);
    let pool = wire_seq::<Constant>(entries)->Ok_0;
    let body = wire_class_body(v)->Ok_0;
    assert(wire_class_head(v) == bytes_u32(magic) + (bytes_u16(minor_version) + (bytes_u16(
        major_version,
    ) + bytes_u16(count))));
    assert(wire_class_file(v) == Ok::<Seq<u8>, ErrorView>(wire_class_head(v) + (pool + body)));
    if interfaces_unambiguous(v) {
        let t4 = pool + (body + rest);
        let t3 = bytes_u16(count) + t4;
        let t2 = bytes_u16(major_version) + t3;
        let t1 = bytes_u16(minor_version) + t2;
        assert(s5 == body + rest);
        assert(s4 == t4);
        assert(s3 == t3);
        assert(s2 == t2);
        assert(s1 == t1);
        assert(s == bytes_u32(magic) + t1);
        assert((wire_class_head(v) + (pool + body)) + rest =~= bytes_u32(magic) + t1);
    }
}

proof fn lemma_class_body_exact(
    magic: u32,
    minor_version: u16,
    major_version: u16,
    pool: Seq<ConstantView>,
    s: Seq<u8>,
)
    requires
        parse_class_body(magic, minor_version, major_version, pool, s) is Ok,
        pool.len() < 65535,
    ensures
        ({
            let v = parse_class_body(magic, minor_version, major_version, pool, s)->Ok_0.0;
            let rest = parse_class_body(magic, minor_version, major_version, pool, s)->Ok_0.1;
            &&& v.magic == magic
            &&& v.minor_version == minor_version
            &&& v.major_version == major_version
            &&& v.constant_pool == pool
            &&& class_file_canonical(v)
            &&& wire_class_body(v) is Ok
            &&& interfaces_unambiguous(v) ==> wire_class_body(v)->Ok_0 + rest == s
        }),
{
    let v = parse_class_body(magic, minor_version, major_version, pool, s)->Ok_0.0;
    let rest = parse_class_body(magic, minor_version, major_version, pool, s)->Ok_0.1;
    lemma_u16_exact(s);
    let s1 = parse_u16(s)->Ok_0.1;
    lemma_u16_exact(s1);
    let s2 = parse_u16(s1)->Ok_0.1;
    lemma_u16_exact(s2);
    let s3 = parse_u16(s2)->Ok_0.1;
    crate::codec::lemma_table16_exact::<u16>(s3);
    let indices = parse_table16::<u16>(s3)->Ok_0.0;
    let s4 = parse_table16::<u16>(s3)->Ok_0.1;
    lemma_indices_exact(pool, indices);
    lemma_indices_bounded(indices);
    lemma_indices_wired(class_indices(pool, v.interfaces)->Ok_0);
    crate::member::lemma_member_table_exact::<FieldInfo>(s4, pool);
    let s5 = parse_member_table::<FieldInfo>(s4, pool)->Ok_0.1;
    crate::member::lemma_member_table_exact::<MethodInfo>(s5, pool);
    let s6 = parse_member_table::<MethodInfo>(s5, pool)->Ok_0.1;
    crate::attribute::laws::lemma_attribute_table_exact(s6, pool);
    if interfaces_unambiguous(v) {
        assert forall|i: int| 0 <= i < indices.len() implies occurs_once(
            pool,
            #[trigger] resolve_classes(pool, indices)->Ok_0[i],
        ) by {
            assert(v.interfaces[i] == resolve_classes(pool, indices)->Ok_0[i]);
        }
        let mid = bytes_u16(v.access_flags) + (bytes_u16(v.this_class) + bytes_u16(v.super_class));
        let interfaces = wire_table16::<u16>(indices)->Ok_0;
        let fields = wire_member_table::<FieldInfo>(v.fields)->Ok_0;
        let methods = wire_member_table::<MethodInfo>(v.methods)->Ok_0;
        let attributes = wire_attribute_table(v.attributes)->Ok_0;
        assert(wire_class_body(v) == Ok::<Seq<u8>, ErrorView>(
            mid + (interfaces + (fields + (methods + attributes))),
        ));
        assert((mid + (interfaces + (fields + (methods + attributes)))) + rest =~= bytes_u16(
            v.access_flags,
        ) + (bytes_u16(v.this_class) + (bytes_u16(v.super_class) + (interfaces + (fields + (methods
            + (attributes + rest)))))));
    }
}

} // verus!
