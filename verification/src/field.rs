//! The fields of a class.

use vstd::prelude::*;
use bytes::BytesMut;
use crate::attribute::decode::decode_attribute_table;
use crate::attribute::encode::write_attribute_table;
use crate::attribute::laws::{
    attributes_canonical, lemma_attribute_table_prefix, lemma_attribute_table_round_trip,
};
use crate::attribute::{parse_attribute_table, wire_attribute_table, Attribute, AttributeView};
use crate::codec::join;
use crate::constant::{Constant, ConstantView};
use crate::error::Error;
use crate::member::Member;
use crate::wire::{
    bytes_u16, lemma_u16_prefix, lemma_u16_round_trip, parse_u16, push_u16, read_u16, settle,
    Parsed, Wired,
};

verus! {

/// One field: its access flags, the pool indices of its name and of its
/// descriptor, and its attributes.
#[derive(Debug, PartialEq, Eq)]
pub struct FieldInfo {
    pub access_flags: u16,
    pub name_index: u16,
    pub descriptor_index: u16,
    pub attributes: Vec<Attribute>,
}

/// The model of a [`FieldInfo`].
pub struct FieldInfoView {
    pub access_flags: u16,
    pub name_index: u16,
    pub descriptor_index: u16,
    pub attributes: Seq<AttributeView>,
}

impl DeepView for FieldInfo {
    type V = FieldInfoView;

    open spec fn deep_view(&self) -> FieldInfoView {
        FieldInfoView {
            access_flags: self.access_flags,
            name_index: self.name_index,
            descriptor_index: self.descriptor_index,
            attributes: self.attributes.deep_view(),
        }
    }
}

impl Member for FieldInfo {
    open spec fn parse(s: Seq<u8>, pool: Seq<ConstantView>) -> Parsed<FieldInfoView> {
        match parse_u16(s) {
            Err(e) => Err(e),
            Ok((access_flags, s1)) => match parse_u16(s1) {
                Err(e) => Err(e),
                Ok((name_index, s2)) => match parse_u16(s2) {
                    Err(e) => Err(e),
                    Ok((descriptor_index, s3)) => match parse_attribute_table(s3, pool) {
                        Err(e) => Err(e),
                        Ok((attributes, rest)) => Ok(
                            (
                                FieldInfoView {
                                    access_flags,
                                    name_index,
                                    descriptor_index,
                                    attributes,
                                },
                                rest,
                            ),
                        ),
                    },
                },
            },
        }
    }

    open spec fn wire(v: FieldInfoView) -> Wired {
        join(
            Ok(bytes_u16(v.access_flags) + (bytes_u16(v.name_index) + bytes_u16(v.descriptor_index))),
            wire_attribute_table(v.attributes),
        )
    }

    open spec fn canonical(v: FieldInfoView, pool: Seq<ConstantView>) -> bool {
        attributes_canonical(v.attributes, pool)
    }

    fn decode(buf: &mut BytesMut, pool: &Vec<Constant>) -> (r: Result<FieldInfo, Error>) {
        let access_flags = read_u16(buf)?;
        let name_index = read_u16(buf)?;
        let descriptor_index = read_u16(buf)?;
        let attributes = decode_attribute_table(buf, pool)?;
        Ok(FieldInfo { access_flags, name_index, descriptor_index, attributes })
    }

    fn write(&self, out: &mut Vec<u8>) -> (r: Result<usize, Error>) {
        let start = out.len();
        push_u16(out, self.access_flags);
        push_u16(out, self.name_index);
        push_u16(out, self.descriptor_index);
        write_attribute_table(&self.attributes, out)?;
        proof {
            let v = self.deep_view();
            let table = wire_attribute_table(v.attributes)->Ok_0;
            assert(out@ =~= old(out)@ + ((bytes_u16(v.access_flags) + (bytes_u16(v.name_index)
                + bytes_u16(v.descriptor_index))) + table));
        }
        Ok(out.len() - start)
    }

    fn encode(&self, out: &mut Vec<u8>) -> (r: Result<usize, Error>) {
        let start = out.len();
        let r = self.write(out);
        settle(out, start, r)
    }

    proof fn lemma_round_trip(v: FieldInfoView, pool: Seq<ConstantView>, tail: Seq<u8>) {
        let table = wire_attribute_table(v.attributes)->Ok_0;
        let s3 = table + tail;
        let s2 = bytes_u16(v.descriptor_index) + s3;
        let s1 = bytes_u16(v.name_index) + s2;
        assert(Self::wire(v)->Ok_0 + tail =~= bytes_u16(v.access_flags) + s1);
        lemma_u16_round_trip(v.access_flags, s1);
        lemma_u16_round_trip(v.name_index, s2);
        lemma_u16_round_trip(v.descriptor_index, s3);
        lemma_attribute_table_round_trip(v.attributes, pool, tail);
    }

    proof fn lemma_exact(s: Seq<u8>, pool: Seq<ConstantView>) {
        crate::wire::lemma_u16_exact(s);
        let s1 = parse_u16(s)->Ok_0.1;
        crate::wire::lemma_u16_exact(s1);
        let s2 = parse_u16(s1)->Ok_0.1;
        crate::wire::lemma_u16_exact(s2);
        let s3 = parse_u16(s2)->Ok_0.1;
        crate::attribute::laws::lemma_attribute_table_exact(s3, pool);
        let v = Self::parse(s, pool)->Ok_0.0;
        let rest = Self::parse(s, pool)->Ok_0.1;
        let table = wire_attribute_table(v.attributes)->Ok_0;
        assert(((bytes_u16(v.access_flags) + (bytes_u16(v.name_index) + bytes_u16(
            v.descriptor_index,
        ))) + table) + rest =~= s);
    }

    proof fn lemma_truncated(v: FieldInfoView, pool: Seq<ConstantView>, k: int) {
        let none = Seq::<u8>::empty();
        let table = wire_attribute_table(v.attributes)->Ok_0;
        let r3 = table + none;
        let r2 = bytes_u16(v.descriptor_index) + r3;
        let r1 = bytes_u16(v.name_index) + r2;
        assert(Self::wire(v)->Ok_0 =~= bytes_u16(v.access_flags) + r1);
        lemma_u16_prefix(v.access_flags, r1, k);
        if k >= 2 {
            lemma_u16_prefix(v.name_index, r2, k - 2);
            if k >= 4 {
                lemma_u16_prefix(v.descriptor_index, r3, k - 4);
                if k >= 6 {
                    lemma_attribute_table_prefix(v.attributes, pool, none, k - 6);
                }
            }
        }
    }
}

impl<'a> crate::TryFromCp<&'a mut BytesMut> for FieldInfo {
    type Error = Error;

    fn try_from_cp(buf: &'a mut BytesMut, constant_pool: &crate::ConstantPoolRef) -> (r: Result<
        FieldInfo,
        Error,
    >)
        ensures
            crate::wire::decodes(
                r,
                crate::wire::unread(*old(buf)),
                crate::wire::unread(*final(buf)),
                <FieldInfo as Member>::parse(crate::wire::unread(*old(buf)), constant_pool.deep_view()),
            ),
    {
        <FieldInfo as Member>::decode(buf, constant_pool)
    }
}

impl<'a> crate::TryInto<&'a mut Vec<u8>, usize> for FieldInfo {
    type Error = Error;

    fn try_into_buf(&self, out: &'a mut Vec<u8>) -> (r: Result<usize, Error>)
        ensures
            crate::wire::encodes(
                r,
                old(out)@,
                final(out)@,
                <FieldInfo as Member>::wire(self.deep_view()),
            ),
            r is Err ==> final(out)@ == old(out)@,
    {
        self.encode(out)
    }
}

} // verus!
