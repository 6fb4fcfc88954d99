//! The methods of a class.

use vstd::prelude::*;
use bytes::BytesMut;
use crate::attribute::decode::decode_attribute_table;
use crate::attribute::encode::write_attribute_table;
use crate::attribute::laws::{
    attributes_canonical, lemma_attribute_table_prefix, lemma_attribute_table_round_trip,
};
use crate::attribute::{
    parse_attribute_table, wire_attribute_table, Attribute, AttributeType, AttributeTypeView,
    AttributeView, CodeAttribute, CodeAttributeView,
};
use crate::codec::join;
use crate::constant::{Constant, ConstantView};
use crate::error::Error;
use crate::member::Member;
use crate::wire::{
    bytes_u16, lemma_u16_prefix, lemma_u16_round_trip, parse_u16, push_u16, read_u16, settle,
    Parsed, Wired,
};

verus! {

/// One method: its access flags, the pool indices of its name and of its
/// descriptor, its attributes, and where among them its code stands.
#[derive(Debug, PartialEq, Eq)]
pub struct MethodInfo {
    pub access_flags: u16,
    pub name_index: u16,
    pub descriptor_index: u16,
    pub attributes: Vec<Attribute>,
    /// The index in `attributes` of the last `Code` attribute, if there is one.
    pub code_attr_index: Option<usize>,
}

/// The model of a [`MethodInfo`].
pub struct MethodInfoView {
    pub access_flags: u16,
    pub name_index: u16,
    pub descriptor_index: u16,
    pub attributes: Seq<AttributeView>,
    pub code_attr_index: Option<usize>,
}

impl DeepView for MethodInfo {
    type V = MethodInfoView;

    open spec fn deep_view(&self) -> MethodInfoView {
        MethodInfoView {
            access_flags: self.access_flags,
            name_index: self.name_index,
            descriptor_index: self.descriptor_index,
            attributes: self.attributes.deep_view(),
            code_attr_index: self.code_attr_index,
        }
    }
}

/// The index of the last `Code` attribute of a table, if it has one.
pub open spec fn last_code_index(list: Seq<AttributeView>) -> Option<usize>
    decreases list.len(),
{
    if list.len() == 0 {
        None
    } else if list.last().attr_type is Code {
        Some((list.len() - 1) as usize)
    } else {
        last_code_index(list.drop_last())
    }
}

/// The code of a method: the payload of the attribute that `code_attr_index`
/// points at, where that is a `Code` attribute.
pub open spec fn method_code(v: MethodInfoView) -> Option<CodeAttributeView> {
    match v.code_attr_index {
        Some(index) => if index < v.attributes.len() {
            match v.attributes[index as int].attr_type {
                AttributeTypeView::Code { code } => Some(code),
                _ => None,
            }
        } else {
            None
        },
        None => None,
    }
}

/// Finds the last `Code` attribute of a table.
pub fn find_code(attributes: &Vec<Attribute>) -> (r: Option<usize>)
    ensures
        r == last_code_index(attributes.deep_view()),
{
    let ghost view = attributes.deep_view();
    let mut found: Option<usize> = None;
    let mut i: usize = 0;
    proof {
        assert(view.take(0) =~= Seq::<AttributeView>::empty());
    }
    while i < attributes.len()
        invariant
            i <= attributes.len(),
            view == attributes.deep_view(),
            found == last_code_index(view.take(i as int)),
        decreases attributes.len() - i,
    {
        proof {
            let next = view.take(i + 1);
            assert(next.drop_last() =~= view.take(i as int));
            assert(next.last() == view[i as int]);
            assert(view[i as int] == attributes@[i as int].deep_view());
        }
        match &attributes[i].attr_type {
            AttributeType::Code { .. } => {
                found = Some(i);
            },
            _ => {},
        }
        i += 1;
    }
    proof {
        assert(view.take(attributes.len() as int) =~= view);
    }
    found
}

impl MethodInfo {
    /// The code of the method, if `code_attr_index` points at a `Code`
    /// attribute.
    pub fn get_code(&self) -> (r: Option<&CodeAttribute>)
        requires
            self.code_attr_index is Some ==> self.code_attr_index->Some_0 < self.attributes.len(),
        ensures
            match method_code(self.deep_view()) {
                Some(code) => r is Some && r->Some_0.deep_view() == code,
                None => r is None,
            },
    {
        match self.code_attr_index {
            Some(code_index) => {
                proof {
                    assert(self.deep_view().attributes[code_index as int]
                        == self.attributes@[code_index as int].deep_view());
                }
                match &self.attributes[code_index].attr_type {
                    AttributeType::Code { code } => Some(code),
                    _ => None,
                }
            },
            None => None,
        }
    }
}

impl Member for MethodInfo {
    open spec fn parse(s: Seq<u8>, pool: Seq<ConstantView>) -> Parsed<MethodInfoView> {
        match parse_u16(s) {
            Err(e) => Err(e),
            Ok((access_flags, s1)) => match parse_u16(s1) {
                Err(e) => Err(e),
                Ok((name_index, s2)) => match parse_u16(s2) {
                    Err(e) => Err(e),
                    Ok((descriptor_index, s3)) => match parse_attribute_table(s3, pool) {
                        Err(e) => Err(e),
                        Ok((attributes, rest)) => Ok(
                            (
                                MethodInfoView {
                                    access_flags,
                                    name_index,
                                    descriptor_index,
                                    attributes,
                                    code_attr_index: last_code_index(attributes),
                                },
                                rest,
                            ),
                        ),
                    },
                },
            },
        }
    }

    open spec fn wire(v: MethodInfoView) -> Wired {
        join(
            Ok(bytes_u16(v.access_flags) + (bytes_u16(v.name_index) + bytes_u16(v.descriptor_index))),
            wire_attribute_table(v.attributes),
        )
    }

    open spec fn canonical(v: MethodInfoView, pool: Seq<ConstantView>) -> bool {
        &&& attributes_canonical(v.attributes, pool)
        &&& v.code_attr_index == last_code_index(v.attributes)
    }

    fn decode(buf: &mut BytesMut, pool: &Vec<Constant>) -> (r: Result<MethodInfo, Error>) {
        let access_flags = read_u16(buf)?;
        let name_index = read_u16(buf)?;
        let descriptor_index = read_u16(buf)?;
        let attributes = decode_attribute_table(buf, pool)?;
        let code_attr_index = find_code(&attributes);
        Ok(MethodInfo { access_flags, name_index, descriptor_index, attributes, code_attr_index })
    }

    fn write(&self, out: &mut Vec<u8>) -> (r: Result<usize, Error>) {
        let start = out.len();
        push_u16(out, self.access_flags);
        push_u16(out, self.name_index);
        push_u16(out, self.descriptor_index);
        write_attribute_table(&self.attributes, out)?;
        proof {
            let v = self.deep_view();
            let table = wire_attribute_table(v.attributes)->Ok_0;
            assert(out@ =~= old(out)@ + ((bytes_u16(v.access_flags) + (bytes_u16(v.name_index)
                + bytes_u16(v.descriptor_index))) + table));
        }
        Ok(out.len() - start)
    }

    fn encode(&self, out: &mut Vec<u8>) -> (r: Result<usize, Error>) {
        let start = out.len();
        let r = self.write(out);
        settle(out, start, r)
    }

    proof fn lemma_round_trip(v: MethodInfoView, pool: Seq<ConstantView>, tail: Seq<u8>) {
        let table = wire_attribute_table(v.attributes)->Ok_0;
        let s3 = table + tail;
        let s2 = bytes_u16(v.descriptor_index) + s3;
        let s1 = bytes_u16(v.name_index) + s2;
        assert(Self::wire(v)->Ok_0 + tail =~= bytes_u16(v.access_flags) + s1);
        lemma_u16_round_trip(v.access_flags, s1);
        lemma_u16_round_trip(v.name_index, s2);
        lemma_u16_round_trip(v.descriptor_index, s3);
        lemma_attribute_table_round_trip(v.attributes, pool, tail);
    }

    proof fn lemma_exact(s: Seq<u8>, pool: Seq<ConstantView>) {
        crate::wire::lemma_u16_exact(s);
        let s1 = parse_u16(s)->Ok_0.1;
        crate::wire::lemma_u16_exact(s1);
        let s2 = parse_u16(s1)->Ok_0.1;
        crate::wire::lemma_u16_exact(s2);
        let s3 = parse_u16(s2)->Ok_0.1;
        crate::attribute::laws::lemma_attribute_table_exact(s3, pool);
        let v = Self::parse(s, pool)->Ok_0.0;
        let rest = Self::parse(s, pool)->Ok_0.1;
        let table = wire_attribute_table(v.attributes)->Ok_0;
        assert(((bytes_u16(v.access_flags) + (bytes_u16(v.name_index) + bytes_u16(
            v.descriptor_index,
        ))) + table) + rest =~= s);
    }

    proof fn lemma_truncated(v: MethodInfoView, pool: Seq<ConstantView>, k: int) {
        let none = Seq::<u8>::empty();
        let table = wire_attribute_table(v.attributes)->Ok_0;
        let r3 = table + none;
        let r2 = bytes_u16(v.descriptor_index) + r3;
        let r1 = bytes_u16(v.name_index) + r2;
        assert(Self::wire(v)->Ok_0 =~= bytes_u16(v.access_flags) + r1);
        lemma_u16_prefix(v.access_flags, r1, k);
        if k >= 2 {
            lemma_u16_prefix(v.name_index, r2, k - 2);
            if k >= 4 {
                lemma_u16_prefix(v.descriptor_index, r3, k - 4);
                if k >= 6 {
                    lemma_attribute_table_prefix(v.attributes, pool, none, k - 6);
                }
            }
        }
    }
}

impl<'a> crate::TryFromCp<&'a mut BytesMut> for MethodInfo {
    type Error = Error;

    fn try_from_cp(buf: &'a mut BytesMut, constant_pool: &crate::ConstantPoolRef) -> (r: Result<
        MethodInfo,
        Error,
    >)
        ensures
            crate::wire::decodes(
                r,
                crate::wire::unread(*old(buf)),
                crate::wire::unread(*final(buf)),
                <MethodInfo as Member>::parse(crate::wire::unread(*old(buf)), constant_pool.deep_view()),
            ),
    {
        <MethodInfo as Member>::decode(buf, constant_pool)
    }
}

impl<'a> crate::TryInto<&'a mut Vec<u8>, usize> for MethodInfo {
    type Error = Error;

    fn try_into_buf(&self, out: &'a mut Vec<u8>) -> (r: Result<usize, Error>)
        ensures
            crate::wire::encodes(
                r,
                old(out)@,
                final(out)@,
                <MethodInfo as Member>::wire(self.deep_view()),
            ),
            r is Err ==> final(out)@ == old(out)@,
    {
        self.encode(out)
    }
}

} // verus!
