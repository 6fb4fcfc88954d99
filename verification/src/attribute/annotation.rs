//! Annotations and their element values: a tree, since an element value may
//! hold an annotation or an array of element values.

use vstd::prelude::*;
use bytes::BytesMut;
use crate::codec::{
    after, behind, join, lemma_table16_exact, lemma_table16_prefix, lemma_table16_round_trip,
    parse_table16, read_table16, wire_table16, write_table16, Wire,
};
use crate::constant::parse_u16_pair;
use crate::error::Error;
use crate::error::ErrorView;
use crate::wire::{
    bytes_u16, decodes, encodes, lemma_u16_exact, lemma_u16_prefix, lemma_u16_round_trip,
    lemma_u8_exact, lemma_u8_prefix, lemma_u8_round_trip, parse_u16, parse_u8, push_u16, push_u8,
    read_u16, read_u8, settle, unread, Parsed, Wired,
};

verus! {

/// One value of an annotation's element: the tag character and what it stands
/// in front of.
#[derive(Debug, PartialEq, Eq)]
pub struct ElementValue {
    pub tag: u8,
    pub value: Element,
}

/// What an element value holds.
#[derive(Debug, PartialEq, Eq)]
pub enum Element {
    /// The pool index of a constant (tags `B C D F I J S Z s`).
    ConstValueIndex(u16),
    /// The pool indices of an enum's type name and constant name (tag `e`).
    EnumConstValue { type_name_index: u16, const_name_index: u16 },
    /// The pool index of a class descriptor (tag `c`).
    ClassInfoIndex(u16),
    /// A nested annotation (tag `@`).
    AnnotationValue(Annotation),
    /// An array of element values (tag `[`).
    ArrayValue(Vec<ElementValue>),
}

/// An annotation: the pool index of its type and its named element values.
#[derive(Debug, PartialEq, Eq)]
pub struct Annotation {
    pub type_index: u16,
    /// Each pair is the pool index of the element's name and its value.
    pub element_value_pairs: Vec<(u16, ElementValue)>,
}

/// The annotations of one formal parameter.
#[derive(Debug, PartialEq, Eq)]
pub struct ParameterAnnotation {
    pub annotations: Vec<Annotation>,
}

/// The model of an [`ElementValue`].
pub struct ElementValueView {
    pub tag: u8,
    pub value: ElementView,
}

/// The model of an [`Element`].
pub enum ElementView {
    ConstValueIndex(u16),
    EnumConstValue { type_name_index: u16, const_name_index: u16 },
    ClassInfoIndex(u16),
    AnnotationValue(AnnotationView),
    ArrayValue(Seq<ElementValueView>),
}

/// The model of an [`Annotation`].
pub struct AnnotationView {
    pub type_index: u16,
    pub element_value_pairs: Seq<(u16, ElementValueView)>,
}

/// The model of a [`ParameterAnnotation`].
pub struct ParameterAnnotationView {
    pub annotations: Seq<AnnotationView>,
}

pub open spec fn element_value_view(v: ElementValue) -> ElementValueView
    decreases v,
{
    ElementValueView { tag: v.tag, value: element_view(v.value) }
}

pub open spec fn element_view(e: Element) -> ElementView
    decreases e,
{
    match e {
        Element::ConstValueIndex(index) => ElementView::ConstValueIndex(index),
        Element::EnumConstValue { type_name_index, const_name_index } => ElementView::EnumConstValue {
            type_name_index,
            const_name_index,
        },
        Element::ClassInfoIndex(index) => ElementView::ClassInfoIndex(index),
        Element::AnnotationValue(annotation) => ElementView::AnnotationValue(
            annotation_view(annotation),
        ),
        Element::ArrayValue(values) => ElementView::ArrayValue(
            Seq::new(
                values@.len(),
                |i: int|
                    if 0 <= i < values@.len() {
                        element_value_view(values@[i])
                    } else {
                        arbitrary()
                    },
            ),
        ),
    }
}

pub open spec fn annotation_view(a: Annotation) -> AnnotationView
    decreases a,
{
    AnnotationView {
        type_index: a.type_index,
        element_value_pairs: Seq::new(
            a.element_value_pairs@.len(),
            |i: int|
                if 0 <= i < a.element_value_pairs@.len() {
                    (a.element_value_pairs@[i].0, element_value_view(a.element_value_pairs@[i].1))
                } else {
                    arbitrary()
                },
        ),
    }
}

impl DeepView for ElementValue {
    type V = ElementValueView;

    open spec fn deep_view(&self) -> ElementValueView {
        element_value_view(*self)
    }
}

impl DeepView for Annotation {
    type V = AnnotationView;

    open spec fn deep_view(&self) -> AnnotationView {
        annotation_view(*self)
    }
}

impl DeepView for ParameterAnnotation {
    type V = ParameterAnnotationView;

    open spec fn deep_view(&self) -> ParameterAnnotationView {
        ParameterAnnotationView { annotations: self.annotations.deep_view() }
    }
}

/// The model of an array value is the models of its values.
pub proof fn lemma_array_view(values: Vec<ElementValue>)
    ensures
        element_view(Element::ArrayValue(values)) == ElementView::ArrayValue(values.deep_view()),
{
    assert(element_view(Element::ArrayValue(values))->ArrayValue_0 =~= values.deep_view());
}

/// The model of an annotation holds the models of its pairs.
pub proof fn lemma_annotation_view(type_index: u16, pairs: Vec<(u16, ElementValue)>)
    ensures
        annotation_view(Annotation { type_index, element_value_pairs: pairs }) == (AnnotationView {
            type_index,
            element_value_pairs: pairs.deep_view(),
        }),
{
    let a = Annotation { type_index, element_value_pairs: pairs };
    assert(annotation_view(a).element_value_pairs =~= pairs.deep_view());
}

/// The tags `B C D F I J S Z s`: the value is the pool index of a constant.
pub open spec fn is_const_tag(tag: u8) -> bool {
    tag == 66 || tag == 67 || tag == 68 || tag == 70 || tag == 73 || tag == 74 || tag == 83 || tag
        == 90 || tag == 115
}

/// The element value that the bytes start with.
pub open spec fn parse_element_value(s: Seq<u8>) -> Parsed<ElementValueView>
    decreases s.len(), 0nat, 0nat,
{
    match parse_u8(s) {
        Err(e) => Err(e),
        Ok((tag, s1)) => if is_const_tag(tag) {
            match parse_u16(s1) {
                Err(e) => Err(e),
                Ok((index, rest)) => Ok(
                    (ElementValueView { tag, value: ElementView::ConstValueIndex(index) }, rest),
                ),
            }
        } else if tag == 101 {
            match parse_u16_pair(s1) {
                Err(e) => Err(e),
                Ok(((type_name_index, const_name_index), rest)) => Ok(
                    (
                        ElementValueView {
                            tag,
                            value: ElementView::EnumConstValue { type_name_index, const_name_index },
                        },
                        rest,
                    ),
                ),
            }
        } else if tag == 99 {
            match parse_u16(s1) {
                Err(e) => Err(e),
                Ok((index, rest)) => Ok(
                    (ElementValueView { tag, value: ElementView::ClassInfoIndex(index) }, rest),
                ),
            }
        } else if tag == 64 {
            match parse_annotation(s1) {
                Err(e) => Err(e),
                Ok((annotation, rest)) => Ok(
                    (ElementValueView { tag, value: ElementView::AnnotationValue(annotation) }, rest),
                ),
            }
        } else if tag == 91 {
            match parse_u16(s1) {
                Err(e) => Err(e),
                Ok((n, s2)) => match parse_values(s2, n as nat) {
                    Err(e) => Err(e),
                    Ok((values, rest)) => Ok(
                        (ElementValueView { tag, value: ElementView::ArrayValue(values) }, rest),
                    ),
                },
            }
        } else {
            Err(ErrorView::InvalidElementValueTag(tag as char))
        },
    }
}

/// The annotation that the bytes start with.
pub open spec fn parse_annotation(s: Seq<u8>) -> Parsed<AnnotationView>
    decreases s.len(), 0nat, 0nat,
{
    match parse_u16(s) {
        Err(e) => Err(e),
        Ok((type_index, s1)) => match parse_pair_table(s1) {
            Err(e) => Err(e),
            Ok((element_value_pairs, rest)) => Ok(
                (AnnotationView { type_index, element_value_pairs }, rest),
            ),
        },
    }
}

/// A 16-bit count and that many pairs of name index and element value.
pub open spec fn parse_pair_table(s: Seq<u8>) -> Parsed<Seq<(u16, ElementValueView)>>
    decreases s.len(), 2nat, 0nat,
{
    match parse_u16(s) {
        Err(e) => Err(e),
        Ok((n, s1)) => parse_pairs(s1, n as nat),
    }
}

/// `n` pairs of name index and element value. (No value leaves more bytes
/// than it was given; the test of that lets the definition be seen to end.)
pub open spec fn parse_pairs(s: Seq<u8>, n: nat) -> Parsed<Seq<(u16, ElementValueView)>>
    decreases s.len(), 1nat, n,
{
    if n == 0 {
        Ok((Seq::empty(), s))
    } else {
        match parse_u16(s) {
            Err(e) => Err(e),
            Ok((name_index, s1)) => match parse_element_value(s1) {
                Err(e) => Err(e),
                Ok((value, s2)) => if s2.len() > s1.len() {
                    Err(ErrorView::InvalidLength)
                } else {
                    match parse_pairs(s2, (n - 1) as nat) {
                        Err(e) => Err(e),
                        Ok((others, rest)) => Ok((seq![(name_index, value)] + others, rest)),
                    }
                },
            },
        }
    }
}

/// `n` element values. (No value leaves more bytes than it was given; the
/// test of that lets the definition be seen to end.)
pub open spec fn parse_values(s: Seq<u8>, n: nat) -> Parsed<Seq<ElementValueView>>
    decreases s.len(), 1nat, n,
{
    if n == 0 {
        Ok((Seq::empty(), s))
    } else {
        match parse_element_value(s) {
            Err(e) => Err(e),
            Ok((value, s1)) => if s1.len() > s.len() {
                Err(ErrorView::InvalidLength)
            } else {
                match parse_values(s1, (n - 1) as nat) {
                    Err(e) => Err(e),
                    Ok((others, rest)) => Ok((seq![value] + others, rest)),
                }
            },
        }
    }
}

/// The bytes of an element value. A value of another shape than its tag
/// implies, an unknown tag, and an array or an annotation with more than
/// 65535 entries have none.
pub open spec fn wire_element_value(v: ElementValueView) -> Wired
    decreases v,
{
    if is_const_tag(v.tag) {
        match v.value {
            ElementView::ConstValueIndex(index) => Ok(seq![v.tag] + bytes_u16(index)),
            _ => Err(ErrorView::InvalidElementValue),
        }
    } else if v.tag == 101 {
        match v.value {
            ElementView::EnumConstValue { type_name_index, const_name_index } => Ok(
                seq![v.tag] + (bytes_u16(type_name_index) + bytes_u16(const_name_index)),
            ),
            _ => Err(ErrorView::InvalidElementValue),
        }
    } else if v.tag == 99 {
        match v.value {
            ElementView::ClassInfoIndex(index) => Ok(seq![v.tag] + bytes_u16(index)),
            _ => Err(ErrorView::InvalidElementValue),
        }
    } else if v.tag == 64 {
        match v.value {
            ElementView::AnnotationValue(annotation) => join(
                Ok(seq![v.tag]),
                wire_annotation(annotation),
            ),
            _ => Err(ErrorView::InvalidElementValue),
        }
    } else if v.tag == 91 {
        match v.value {
            ElementView::ArrayValue(values) => if values.len() > 65535 {
                Err(ErrorView::InvalidLength)
            } else {
                join(Ok(seq![v.tag] + bytes_u16(values.len() as u16)), wire_values(values))
            },
            _ => Err(ErrorView::InvalidElementValue),
        }
    } else {
        Err(ErrorView::InvalidElementValueTag(v.tag as char))
    }
}

/// The bytes of an annotation.
pub open spec fn wire_annotation(a: AnnotationView) -> Wired
    decreases a,
{
    join(Ok(bytes_u16(a.type_index)), wire_pair_table(a.element_value_pairs))
}

/// The bytes of a table of pairs with its 16-bit count in front.
pub open spec fn wire_pair_table(pairs: Seq<(u16, ElementValueView)>) -> Wired
    decreases pairs, 1nat,
{
    if pairs.len() > 65535 {
        Err(ErrorView::InvalidLength)
    } else {
        join(Ok(bytes_u16(pairs.len() as u16)), wire_pairs(pairs))
    }
}

/// The bytes of pairs of name index and element value, one after the other.
pub open spec fn wire_pairs(pairs: Seq<(u16, ElementValueView)>) -> Wired
    decreases pairs, 0nat,
{
    if pairs.len() == 0 {
        Ok(Seq::empty())
    } else {
        join(
            join(Ok(bytes_u16(pairs[0].0)), wire_element_value(pairs[0].1)),
            wire_pairs(pairs.skip(1)),
        )
    }
}

/// The bytes of element values, one after the other.
pub open spec fn wire_values(values: Seq<ElementValueView>) -> Wired
    decreases values,
{
    if values.len() == 0 {
        Ok(Seq::empty())
    } else {
        join(wire_element_value(values[0]), wire_values(values.skip(1)))
    }
}


proof fn lemma_parse_pairs_step(done: Seq<(u16, ElementValueView)>, s: Seq<u8>, n: nat)
    requires
        n > 0,
    ensures
        match parse_u16(s) {
            Err(e) => after(done, parse_pairs(s, n)) == Err::<
                (Seq<(u16, ElementValueView)>, Seq<u8>),
                ErrorView,
            >(e),
            Ok((name_index, s1)) => match parse_element_value(s1) {
                Err(e) => after(done, parse_pairs(s, n)) == Err::<
                    (Seq<(u16, ElementValueView)>, Seq<u8>),
                    ErrorView,
                >(e),
                Ok((value, s2)) => s2.len() <= s1.len() ==> after(done, parse_pairs(s, n)) == after(
                    done.push((name_index, value)),
                    parse_pairs(s2, (n - 1) as nat),
                ),
            },
        },
{
    match parse_u16(s) {
        Err(e) => {},
        Ok((name_index, s1)) => match parse_element_value(s1) {
            Err(e) => {},
            Ok((value, s2)) => {
                if s2.len() <= s1.len() {
                    match parse_pairs(s2, (n - 1) as nat) {
                        Err(e) => {},
                        Ok((others, rest)) => {
                            assert(done + (seq![(name_index, value)] + others) =~= done.push(
                                (name_index, value),
                            ) + others);
                        },
                    }
                }
            },
        },
    }
}

proof fn lemma_parse_values_step(done: Seq<ElementValueView>, s: Seq<u8>, n: nat)
    requires
        n > 0,
    ensures
        match parse_element_value(s) {
            Err(e) => after(done, parse_values(s, n)) == Err::<
                (Seq<ElementValueView>, Seq<u8>),
                ErrorView,
            >(e),
            Ok((value, s1)) => s1.len() <= s.len() ==> after(done, parse_values(s, n)) == after(
                done.push(value),
                parse_values(s1, (n - 1) as nat),
            ),
        },
{
    match parse_element_value(s) {
        Err(e) => {},
        Ok((value, s1)) => {
            if s1.len() <= s.len() {
                match parse_values(s1, (n - 1) as nat) {
                    Err(e) => {},
                    Ok((others, rest)) => {
                        assert(done + (seq![value] + others) =~= done.push(value) + others);
                    },
                }
            }
        },
    }
}

proof fn lemma_wire_pairs_step(done: Seq<u8>, pairs: Seq<(u16, ElementValueView)>, i: int)
    requires
        0 <= i < pairs.len(),
    ensures
        match wire_element_value(pairs[i].1) {
            Err(e) => behind(done, wire_pairs(pairs.skip(i))) == Err::<Seq<u8>, ErrorView>(e),
            Ok(bytes) => behind(done, wire_pairs(pairs.skip(i))) == behind(
                done + (bytes_u16(pairs[i].0) + bytes),
                wire_pairs(pairs.skip(i + 1)),
            ),
        },
{
    let here = pairs.skip(i);
    assert(here[0] == pairs[i]);
    assert(here.skip(1) =~= pairs.skip(i + 1));
    match wire_element_value(pairs[i].1) {
        Err(e) => {},
        Ok(bytes) => {
            match wire_pairs(pairs.skip(i + 1)) {
                Err(e) => {},
                Ok(others) => {
                    let first = bytes_u16(pairs[i].0) + bytes;
                    assert(done + (first + others) =~= (done + first) + others);
                },
            }
        },
    }
}

proof fn lemma_wire_values_step(done: Seq<u8>, values: Seq<ElementValueView>, i: int)
    requires
        0 <= i < values.len(),
    ensures
        match wire_element_value(values[i]) {
            Err(e) => behind(done, wire_values(values.skip(i))) == Err::<Seq<u8>, ErrorView>(e),
            Ok(bytes) => behind(done, wire_values(values.skip(i))) == behind(
                done + bytes,
                wire_values(values.skip(i + 1)),
            ),
        },
{
    let here = values.skip(i);
    assert(here[0] == values[i]);
    assert(here.skip(1) =~= values.skip(i + 1));
    match wire_element_value(values[i]) {
        Err(e) => {},
        Ok(bytes) => {
            match wire_values(values.skip(i + 1)) {
                Err(e) => {},
                Ok(others) => {
                    assert(done + (bytes + others) =~= (done + bytes) + others);
                },
            }
        },
    }
}

/// Reads one element value.
pub fn decode_element_value(buf: &mut BytesMut) -> (r: Result<ElementValue, Error>)
    ensures
        decodes(
            r,
            unread(*old(buf)),
            unread(*final(buf)),
            parse_element_value(unread(*old(buf))),
        ),
    decreases unread(*old(buf)).len(), 0nat,
{
    let tag = read_u8(buf)?;
    let value = match tag {
        66 | 67 | 68 | 70 | 73 | 74 | 83 | 90 | 115 => {
            let index = read_u16(buf)?;
            Element::ConstValueIndex(index)
        },
        101 => {
            let type_name_index = read_u16(buf)?;
            let const_name_index = read_u16(buf)?;
            Element::EnumConstValue { type_name_index, const_name_index }
        },
        99 => {
            let index = read_u16(buf)?;
            Element::ClassInfoIndex(index)
        },
        64 => {
            let annotation = decode_annotation(buf)?;
            Element::AnnotationValue(annotation)
        },
        91 => {
            let n = read_u16(buf)?;
            let values = decode_values(buf, n as usize)?;
            proof {
                lemma_array_view(values);
            }
            Element::ArrayValue(values)
        },
        _ => {
            return Err(Error::InvalidElementValueTag(tag as char));
        },
    };
    Ok(ElementValue { tag, value })
}

/// Reads one annotation.
pub fn decode_annotation(buf: &mut BytesMut) -> (r: Result<Annotation, Error>)
    ensures
        decodes(r, unread(*old(buf)), unread(*final(buf)), parse_annotation(unread(*old(buf)))),
    decreases unread(*old(buf)).len(), 0nat,
{
    let type_index = read_u16(buf)?;
    let element_value_pairs = decode_pair_table(buf)?;
    proof {
        lemma_annotation_view(type_index, element_value_pairs);
    }
    Ok(Annotation { type_index, element_value_pairs })
}

/// Reads a 16-bit count and that many pairs of name index and element value.
pub fn decode_pair_table(buf: &mut BytesMut) -> (r: Result<Vec<(u16, ElementValue)>, Error>)
    ensures
        decodes(r, unread(*old(buf)), unread(*final(buf)), parse_pair_table(unread(*old(buf)))),
    decreases unread(*old(buf)).len(), 2nat,
{
    let n = read_u16(buf)?;
    decode_pairs(buf, n as usize)
}

fn decode_pairs(buf: &mut BytesMut, n: usize) -> (r: Result<Vec<(u16, ElementValue)>, Error>)
    ensures
        decodes(r, unread(*old(buf)), unread(*final(buf)), parse_pairs(unread(*old(buf)), n as nat)),
    decreases unread(*old(buf)).len(), 1nat,
{
    let mut pairs: Vec<(u16, ElementValue)> = Vec::new();
    let mut i: usize = 0;
    proof {
        assert(pairs.deep_view() =~= Seq::<(u16, ElementValueView)>::empty());
        match parse_pairs(unread(*buf), n as nat) {
            Ok((all, rest)) => {
                assert(Seq::<(u16, ElementValueView)>::empty() + all =~= all);
            },
            Err(e) => {},
        }
    }
    while i < n
        invariant
            i <= n,
            unread(*buf).len() <= unread(*old(buf)).len(),
            parse_pairs(unread(*old(buf)), n as nat) == after(
                pairs.deep_view(),
                parse_pairs(unread(*buf), (n - i) as nat),
            ),
        decreases n - i,
    {
        proof {
            lemma_parse_pairs_step(pairs.deep_view(), unread(*buf), (n - i) as nat);
        }
        let ghost done = pairs.deep_view();
        let name_index = read_u16(buf)?;
        let value = decode_element_value(buf)?;
        let ghost shown = (name_index, value.deep_view());
        pairs.push((name_index, value));
        proof {
            assert(pairs.deep_view() =~= done.push(shown));
        }
        i += 1;
    }
    proof {
        assert(pairs.deep_view() + Seq::<(u16, ElementValueView)>::empty() =~= pairs.deep_view());
    }
    Ok(pairs)
}

fn decode_values(buf: &mut BytesMut, n: usize) -> (r: Result<Vec<ElementValue>, Error>)
    ensures
        decodes(
            r,
            unread(*old(buf)),
            unread(*final(buf)),
            parse_values(unread(*old(buf)), n as nat),
        ),
    decreases unread(*old(buf)).len(), 1nat,
{
    let mut values: Vec<ElementValue> = Vec::new();
    let mut i: usize = 0;
    proof {
        assert(values.deep_view() =~= Seq::<ElementValueView>::empty());
        match parse_values(unread(*buf), n as nat) {
            Ok((all, rest)) => {
                assert(Seq::<ElementValueView>::empty() + all =~= all);
            },
            Err(e) => {},
        }
    }
    while i < n
        invariant
            i <= n,
            unread(*buf).len() <= unread(*old(buf)).len(),
            parse_values(unread(*old(buf)), n as nat) == after(
                values.deep_view(),
                parse_values(unread(*buf), (n - i) as nat),
            ),
        decreases n - i,
    {
        proof {
            lemma_parse_values_step(values.deep_view(), unread(*buf), (n - i) as nat);
        }
        let ghost done = values.deep_view();
        let value = decode_element_value(buf)?;
        let ghost shown = value.deep_view();
        values.push(value);
        proof {
            assert(values.deep_view() =~= done.push(shown));
        }
        i += 1;
    }
    proof {
        assert(values.deep_view() + Seq::<ElementValueView>::empty() =~= values.deep_view());
    }
    Ok(values)
}

/// Appends the bytes of an element value and returns how many they are.
/// Where the value has no bytes, `out` may have grown by a part of them.
pub fn write_element_value(v: &ElementValue, out: &mut Vec<u8>) -> (r: Result<usize, Error>)
    ensures
        encodes(r, old(out)@, final(out)@, wire_element_value(v.deep_view())),
    decreases *v,
{
    let start = out.len();
    let tag = v.tag;
    let ghost body: Seq<u8>;
    match tag {
        66 | 67 | 68 | 70 | 73 | 74 | 83 | 90 | 115 => {
            match &v.value {
                Element::ConstValueIndex(index) => {
                    push_u8(out, tag);
                    push_u16(out, *index);
                    proof {
                        body = seq![tag] + bytes_u16(*index);
                    }
                },
                _ => {
                    return Err(Error::InvalidElementValue);
                },
            }
        },
        101 => {
            match &v.value {
                Element::EnumConstValue { type_name_index, const_name_index } => {
                    push_u8(out, tag);
                    push_u16(out, *type_name_index);
                    push_u16(out, *const_name_index);
                    proof {
                        body = seq![tag] + (bytes_u16(*type_name_index) + bytes_u16(
                            *const_name_index,
                        ));
                    }
                },
                _ => {
                    return Err(Error::InvalidElementValue);
                },
            }
        },
        99 => {
            match &v.value {
                Element::ClassInfoIndex(index) => {
                    push_u8(out, tag);
                    push_u16(out, *index);
                    proof {
                        body = seq![tag] + bytes_u16(*index);
                    }
                },
                _ => {
                    return Err(Error::InvalidElementValue);
                },
            }
        },
        64 => {
            match &v.value {
                Element::AnnotationValue(annotation) => {
                    push_u8(out, tag);
                    write_annotation(annotation, out)?;
                    proof {
                        body = seq![tag] + wire_annotation(annotation.deep_view())->Ok_0;
                    }
                },
                _ => {
                    return Err(Error::InvalidElementValue);
                },
            }
        },
        91 => {
            match &v.value {
                Element::ArrayValue(values) => {
                    proof {
                        lemma_array_view(*values);
                    }
                    if values.len() > 65535 {
                        return Err(Error::InvalidLength);
                    }
                    push_u8(out, tag);
                    push_u16(out, values.len() as u16);
                    write_values(values, out)?;
                    proof {
                        body = (seq![tag] + bytes_u16(values.len() as u16)) + wire_values(
                            values.deep_view(),
                        )->Ok_0;
                    }
                },
                _ => {
                    return Err(Error::InvalidElementValue);
                },
            }
        },
        _ => {
            return Err(Error::InvalidElementValueTag(tag as char));
        },
    }
    proof {
        assert(wire_element_value(v.deep_view()) == Ok::<Seq<u8>, ErrorView>(body));
        assert(out@ =~= old(out)@ + body);
    }
    Ok(out.len() - start)
}

/// Appends the bytes of an annotation and returns how many they are. Where
/// the annotation has no bytes, `out` may have grown by a part of them.
pub fn write_annotation(a: &Annotation, out: &mut Vec<u8>) -> (r: Result<usize, Error>)
    ensures
        encodes(r, old(out)@, final(out)@, wire_annotation(a.deep_view())),
    decreases *a,
{
    let start = out.len();
    proof {
        lemma_annotation_view(a.type_index, a.element_value_pairs);
    }
    push_u16(out, a.type_index);
    write_pair_table(&a.element_value_pairs, out)?;
    proof {
        let table = wire_pair_table(a.element_value_pairs.deep_view())->Ok_0;
        assert(out@ =~= old(out)@ + (bytes_u16(a.type_index) + table));
    }
    Ok(out.len() - start)
}

/// Appends a 16-bit count and the pairs of name index and element value.
/// Where a value has no bytes, `out` may have grown by what came before it.
pub fn write_pair_table(pairs: &Vec<(u16, ElementValue)>, out: &mut Vec<u8>) -> (r: Result<
    usize,
    Error,
>)
    ensures
        encodes(r, old(out)@, final(out)@, wire_pair_table(pairs.deep_view())),
    decreases *pairs, 1nat,
{
    if pairs.len() > 65535 {
        return Err(Error::InvalidLength);
    }
    let start = out.len();
    push_u16(out, pairs.len() as u16);
    let ghost done = Seq::<u8>::empty();
    let ghost head = out@;
    let ghost view = pairs.deep_view();
    let mut i: usize = 0;
    proof {
        assert(view.skip(0) =~= view);
        match wire_pairs(view) {
            Ok(all) => {
                assert(done + all =~= all);
            },
            Err(e) => {},
        }
        assert(out@ =~= head + done);
    }
    while i < pairs.len()
        invariant
            i <= pairs.len(),
            pairs.len() <= 65535,
            view == pairs.deep_view(),
            head == old(out)@ + bytes_u16(pairs.len() as u16),
            out@ == head + done,
            wire_pairs(view) == behind(done, wire_pairs(view.skip(i as int))),
        decreases pairs.len() - i,
    {
        proof {
            lemma_wire_pairs_step(done, view, i as int);
            assert(view[i as int] == pairs@[i as int].deep_view());
        }
        push_u16(out, pairs[i].0);
        write_element_value(&pairs[i].1, out)?;
        proof {
            let bytes = wire_element_value(view[i as int].1)->Ok_0;
            assert(out@ =~= head + (done + (bytes_u16(view[i as int].0) + bytes)));
            done = done + (bytes_u16(view[i as int].0) + bytes);
        }
        i += 1;
    }
    proof {
        assert(view.skip(pairs.len() as int) =~= Seq::<(u16, ElementValueView)>::empty());
        assert(done + Seq::<u8>::empty() =~= done);
        assert(out@ =~= old(out)@ + (bytes_u16(pairs.len() as u16) + done));
    }
    Ok(out.len() - start)
}

fn write_values(values: &Vec<ElementValue>, out: &mut Vec<u8>) -> (r: Result<usize, Error>)
    ensures
        encodes(r, old(out)@, final(out)@, wire_values(values.deep_view())),
    decreases *values,
{
    let start = out.len();
    let ghost done = Seq::<u8>::empty();
    let ghost view = values.deep_view();
    let mut i: usize = 0;
    proof {
        assert(view.skip(0) =~= view);
        match wire_values(view) {
            Ok(all) => {
                assert(done + all =~= all);
            },
            Err(e) => {},
        }
        assert(out@ =~= old(out)@ + done);
    }
    while i < values.len()
        invariant
            i <= values.len(),
            start == old(out)@.len(),
            view == values.deep_view(),
            out@ == old(out)@ + done,
            wire_values(view) == behind(done, wire_values(view.skip(i as int))),
        decreases values.len() - i,
    {
        proof {
            lemma_wire_values_step(done, view, i as int);
        }
        write_element_value(&values[i], out)?;
        proof {
            let bytes = wire_element_value(view[i as int])->Ok_0;
            assert(out@ =~= old(out)@ + (done + bytes));
            done = done + bytes;
        }
        i += 1;
    }
    proof {
        assert(view.skip(values.len() as int) =~= Seq::<ElementValueView>::empty());
        assert(done + Seq::<u8>::empty() =~= done);
    }
    Ok(out.len() - start)
}

/// Appends the bytes of an element value and returns how many they are. A
/// value that has no bytes leaves `out` as it was.
pub fn encode_element_value(v: &ElementValue, out: &mut Vec<u8>) -> (r: Result<usize, Error>)
    ensures
        encodes(r, old(out)@, final(out)@, wire_element_value(v.deep_view())),
        r is Err ==> final(out)@ == old(out)@,
{
    let start = out.len();
    let r = write_element_value(v, out);
    settle(out, start, r)
}

/// Appends the bytes of an annotation and returns how many they are. An
/// annotation that has no bytes leaves `out` as it was.
pub fn encode_annotation(a: &Annotation, out: &mut Vec<u8>) -> (r: Result<usize, Error>)
    ensures
        encodes(r, old(out)@, final(out)@, wire_annotation(a.deep_view())),
        r is Err ==> final(out)@ == old(out)@,
{
    let start = out.len();
    let r = write_annotation(a, out);
    settle(out, start, r)
}

/// Appends a 16-bit count and the pairs of name index and element value. A
/// table that has no bytes leaves `out` as it was.
pub fn encode_pair_table(pairs: &Vec<(u16, ElementValue)>, out: &mut Vec<u8>) -> (r: Result<usize, Error>)
    ensures
        encodes(r, old(out)@, final(out)@, wire_pair_table(pairs.deep_view())),
        r is Err ==> final(out)@ == old(out)@,
{
    let start = out.len();
    let r = write_pair_table(pairs, out);
    settle(out, start, r)
}

/// Parsing the bytes of an element value gives the value back.
pub proof fn lemma_element_value_round_trip(v: ElementValueView, tail: Seq<u8>)
    requires
        wire_element_value(v) is Ok,
    ensures
        parse_element_value(wire_element_value(v)->Ok_0 + tail) == Ok::<
            (ElementValueView, Seq<u8>),
            ErrorView,
        >((v, tail)),
    decreases v,
{
    let s = wire_element_value(v)->Ok_0 + tail;
    match v.value {
        ElementView::ConstValueIndex(index) => {
            assert(s =~= seq![v.tag] + (bytes_u16(index) + tail));
            lemma_u8_round_trip(v.tag, bytes_u16(index) + tail);
            lemma_u16_round_trip(index, tail);
        },
        ElementView::EnumConstValue { type_name_index, const_name_index } => {
            let second = bytes_u16(const_name_index) + tail;
            assert(s =~= seq![v.tag] + (bytes_u16(type_name_index) + second));
            lemma_u8_round_trip(v.tag, bytes_u16(type_name_index) + second);
            lemma_u16_round_trip(type_name_index, second);
            lemma_u16_round_trip(const_name_index, tail);
        },
        ElementView::ClassInfoIndex(index) => {
            assert(s =~= seq![v.tag] + (bytes_u16(index) + tail));
            lemma_u8_round_trip(v.tag, bytes_u16(index) + tail);
            lemma_u16_round_trip(index, tail);
        },
        ElementView::AnnotationValue(annotation) => {
            let inner = wire_annotation(annotation)->Ok_0;
            assert(s =~= seq![v.tag] + (inner + tail));
            lemma_u8_round_trip(v.tag, inner + tail);
            lemma_annotation_round_trip(annotation, tail);
        },
        ElementView::ArrayValue(values) => {
            let inner = wire_values(values)->Ok_0;
            let counted = bytes_u16(values.len() as u16) + (inner + tail);
            assert(s =~= seq![v.tag] + counted);
            lemma_u8_round_trip(v.tag, counted);
            lemma_u16_round_trip(values.len() as u16, inner + tail);
            lemma_values_round_trip(values, tail);
        },
    }
}

/// Parsing the bytes of an annotation gives the annotation back.
pub proof fn lemma_annotation_round_trip(a: AnnotationView, tail: Seq<u8>)
    requires
        wire_annotation(a) is Ok,
    ensures
        parse_annotation(wire_annotation(a)->Ok_0 + tail) == Ok::<
            (AnnotationView, Seq<u8>),
            ErrorView,
        >((a, tail)),
    decreases a,
{
    let table = wire_pair_table(a.element_value_pairs)->Ok_0;
    assert(wire_annotation(a)->Ok_0 + tail =~= bytes_u16(a.type_index) + (table + tail));
    lemma_u16_round_trip(a.type_index, table + tail);
    lemma_pair_table_round_trip(a.element_value_pairs, tail);
}

/// Parsing the bytes of a table of pairs gives the table back.
pub proof fn lemma_pair_table_round_trip(pairs: Seq<(u16, ElementValueView)>, tail: Seq<u8>)
    requires
        wire_pair_table(pairs) is Ok,
    ensures
        parse_pair_table(wire_pair_table(pairs)->Ok_0 + tail) == Ok::<
            (Seq<(u16, ElementValueView)>, Seq<u8>),
            ErrorView,
        >((pairs, tail)),
    decreases pairs, 1nat,
{
    let rows = wire_pairs(pairs)->Ok_0;
    let count = pairs.len() as u16;
    assert(wire_pair_table(pairs)->Ok_0 + tail =~= bytes_u16(count) + (rows + tail));
    lemma_u16_round_trip(count, rows + tail);
    lemma_pairs_round_trip(pairs, tail);
}

proof fn lemma_pairs_round_trip(pairs: Seq<(u16, ElementValueView)>, tail: Seq<u8>)
    requires
        wire_pairs(pairs) is Ok,
    ensures
        parse_pairs(wire_pairs(pairs)->Ok_0 + tail, pairs.len()) == Ok::<
            (Seq<(u16, ElementValueView)>, Seq<u8>),
            ErrorView,
        >((pairs, tail)),
    decreases pairs, 0nat,
{
    if pairs.len() == 0 {
        assert(Seq::<u8>::empty() + tail =~= tail);
        assert(pairs =~= Seq::<(u16, ElementValueView)>::empty());
    } else {
        let value = wire_element_value(pairs[0].1)->Ok_0;
        let others = wire_pairs(pairs.skip(1))->Ok_0;
        let behind_name = value + (others + tail);
        assert(wire_pairs(pairs)->Ok_0 + tail =~= bytes_u16(pairs[0].0) + behind_name);
        lemma_u16_round_trip(pairs[0].0, behind_name);
        lemma_element_value_round_trip(pairs[0].1, others + tail);
        lemma_pairs_round_trip(pairs.skip(1), tail);
        assert(seq![pairs[0]] + pairs.skip(1) =~= pairs);
    }
}

proof fn lemma_values_round_trip(values: Seq<ElementValueView>, tail: Seq<u8>)
    requires
        wire_values(values) is Ok,
    ensures
        parse_values(wire_values(values)->Ok_0 + tail, values.len()) == Ok::<
            (Seq<ElementValueView>, Seq<u8>),
            ErrorView,
        >((values, tail)),
    decreases values,
{
    if values.len() == 0 {
        assert(Seq::<u8>::empty() + tail =~= tail);
        assert(values =~= Seq::<ElementValueView>::empty());
    } else {
        let value = wire_element_value(values[0])->Ok_0;
        let others = wire_values(values.skip(1))->Ok_0;
        assert(wire_values(values)->Ok_0 + tail =~= value + (others + tail));
        lemma_element_value_round_trip(values[0], others + tail);
        lemma_values_round_trip(values.skip(1), tail);
        assert(seq![values[0]] + values.skip(1) =~= values);
    }
}

/// An element value that was parsed is written back as the bytes that it was
/// parsed from.
pub proof fn lemma_element_value_exact(s: Seq<u8>)
    requires
        parse_element_value(s) is Ok,
    ensures
        wire_element_value(parse_element_value(s)->Ok_0.0) is Ok,
        wire_element_value(parse_element_value(s)->Ok_0.0)->Ok_0 + parse_element_value(s)->Ok_0.1
            == s,
    decreases s.len(), 0nat, 0nat,
{
    lemma_u8_exact(s);
    let tag = parse_u8(s)->Ok_0.0;
    let s1 = parse_u8(s)->Ok_0.1;
    let rest = parse_element_value(s)->Ok_0.1;
    if is_const_tag(tag) || tag == 99 {
        lemma_u16_exact(s1);
        let index = bytes_u16(parse_u16(s1)->Ok_0.0);
        assert((seq![tag] + index) + rest =~= seq![tag] + (index + rest));
    } else if tag == 101 {
        crate::constant::lemma_u16_pair_exact(s1);
        let a = bytes_u16(parse_u16_pair(s1)->Ok_0.0.0);
        let b = bytes_u16(parse_u16_pair(s1)->Ok_0.0.1);
        assert((seq![tag] + (a + b)) + rest =~= seq![tag] + ((a + b) + rest));
    } else if tag == 64 {
        lemma_annotation_exact(s1);
        let inner = wire_annotation(parse_annotation(s1)->Ok_0.0)->Ok_0;
        assert((seq![tag] + inner) + rest =~= seq![tag] + (inner + rest));
    } else if tag == 91 {
        lemma_u16_exact(s1);
        let n = parse_u16(s1)->Ok_0.0;
        let s2 = parse_u16(s1)->Ok_0.1;
        lemma_values_exact(s2, n as nat);
        let inner = wire_values(parse_values(s2, n as nat)->Ok_0.0)->Ok_0;
        assert(((seq![tag] + bytes_u16(n)) + inner) + rest =~= seq![tag] + (bytes_u16(n) + (inner
            + rest)));
    }
}

/// An annotation that was parsed is written back as the bytes that it was
/// parsed from.
pub proof fn lemma_annotation_exact(s: Seq<u8>)
    requires
        parse_annotation(s) is Ok,
    ensures
        wire_annotation(parse_annotation(s)->Ok_0.0) is Ok,
        wire_annotation(parse_annotation(s)->Ok_0.0)->Ok_0 + parse_annotation(s)->Ok_0.1 == s,
    decreases s.len(), 0nat, 0nat,
{
    lemma_u16_exact(s);
    let index = bytes_u16(parse_u16(s)->Ok_0.0);
    let s1 = parse_u16(s)->Ok_0.1;
    lemma_pair_table_exact(s1);
    let table = wire_pair_table(parse_pair_table(s1)->Ok_0.0)->Ok_0;
    let rest = parse_pair_table(s1)->Ok_0.1;
    assert((index + table) + rest =~= index + (table + rest));
}

/// A table of pairs that was parsed is written back as the bytes that it was
/// parsed from.
pub proof fn lemma_pair_table_exact(s: Seq<u8>)
    requires
        parse_pair_table(s) is Ok,
    ensures
        wire_pair_table(parse_pair_table(s)->Ok_0.0) is Ok,
        wire_pair_table(parse_pair_table(s)->Ok_0.0)->Ok_0 + parse_pair_table(s)->Ok_0.1 == s,
    decreases s.len(), 2nat, 0nat,
{
    lemma_u16_exact(s);
    let n = parse_u16(s)->Ok_0.0;
    let s1 = parse_u16(s)->Ok_0.1;
    lemma_pairs_exact(s1, n as nat);
    let rows = wire_pairs(parse_pairs(s1, n as nat)->Ok_0.0)->Ok_0;
    let rest = parse_pairs(s1, n as nat)->Ok_0.1;
    assert((bytes_u16(n) + rows) + rest =~= bytes_u16(n) + (rows + rest));
}

proof fn lemma_pairs_exact(s: Seq<u8>, n: nat)
    requires
        parse_pairs(s, n) is Ok,
    ensures
        parse_pairs(s, n)->Ok_0.0.len() == n,
        wire_pairs(parse_pairs(s, n)->Ok_0.0) is Ok,
        wire_pairs(parse_pairs(s, n)->Ok_0.0)->Ok_0 + parse_pairs(s, n)->Ok_0.1 == s,
    decreases s.len(), 1nat, n,
{
    if n == 0 {
        assert(Seq::<u8>::empty() + s =~= s);
    } else {
        lemma_u16_exact(s);
        let name_index = parse_u16(s)->Ok_0.0;
        let s1 = parse_u16(s)->Ok_0.1;
        lemma_element_value_exact(s1);
        let value = parse_element_value(s1)->Ok_0.0;
        let s2 = parse_element_value(s1)->Ok_0.1;
        lemma_pairs_exact(s2, (n - 1) as nat);
        let others = parse_pairs(s2, (n - 1) as nat)->Ok_0.0;
        let rest = parse_pairs(s2, (n - 1) as nat)->Ok_0.1;
        let pairs = seq![(name_index, value)] + others;
        assert(pairs[0] == (name_index, value));
        assert(pairs.skip(1) =~= others);
        let a = bytes_u16(name_index);
        let b = wire_element_value(value)->Ok_0;
        let c = wire_pairs(others)->Ok_0;
        assert(((a + b) + c) + rest =~= a + (b + (c + rest)));
    }
}

proof fn lemma_values_exact(s: Seq<u8>, n: nat)
    requires
        parse_values(s, n) is Ok,
    ensures
        parse_values(s, n)->Ok_0.0.len() == n,
        wire_values(parse_values(s, n)->Ok_0.0) is Ok,
        wire_values(parse_values(s, n)->Ok_0.0)->Ok_0 + parse_values(s, n)->Ok_0.1 == s,
    decreases s.len(), 1nat, n,
{
    if n == 0 {
        assert(Seq::<u8>::empty() + s =~= s);
    } else {
        lemma_element_value_exact(s);
        let value = parse_element_value(s)->Ok_0.0;
        let s1 = parse_element_value(s)->Ok_0.1;
        lemma_values_exact(s1, (n - 1) as nat);
        let others = parse_values(s1, (n - 1) as nat)->Ok_0.0;
        let rest = parse_values(s1, (n - 1) as nat)->Ok_0.1;
        let values = seq![value] + others;
        assert(values[0] == value);
        assert(values.skip(1) =~= others);
        let b = wire_element_value(value)->Ok_0;
        let c = wire_values(others)->Ok_0;
        assert((b + c) + rest =~= b + (c + rest));
    }
}

/// The bytes of an element value, cut short, give a wrong length.
pub proof fn lemma_element_value_truncated(v: ElementValueView, k: int)
    requires
        wire_element_value(v) is Ok,
        0 <= k < wire_element_value(v)->Ok_0.len(),
    ensures
        parse_element_value(wire_element_value(v)->Ok_0.take(k)) == Err::<
            (ElementValueView, Seq<u8>),
            ErrorView,
        >(ErrorView::InvalidLength),
    decreases v, 0nat,
{
    let bytes = wire_element_value(v)->Ok_0;
    let none = Seq::<u8>::empty();
    match v.value {
        ElementView::ConstValueIndex(index) => {
            assert(bytes =~= seq![v.tag] + (bytes_u16(index) + none));
            lemma_u8_prefix(v.tag, bytes_u16(index) + none, k);
            if k >= 1 {
                lemma_u16_prefix(index, none, k - 1);
            }
        },
        ElementView::EnumConstValue { type_name_index, const_name_index } => {
            let pair = bytes_u16(type_name_index) + bytes_u16(const_name_index);
            assert(bytes =~= seq![v.tag] + pair);
            lemma_u8_prefix(v.tag, pair, k);
            if k >= 1 {
                crate::constant::lemma_u16_pair_truncated(type_name_index, const_name_index, k - 1);
            }
        },
        ElementView::ClassInfoIndex(index) => {
            assert(bytes =~= seq![v.tag] + (bytes_u16(index) + none));
            lemma_u8_prefix(v.tag, bytes_u16(index) + none, k);
            if k >= 1 {
                lemma_u16_prefix(index, none, k - 1);
            }
        },
        ElementView::AnnotationValue(annotation) => {
            let inner = wire_annotation(annotation)->Ok_0;
            lemma_u8_prefix(v.tag, inner, k);
            if k >= 1 {
                lemma_annotation_truncated(annotation, k - 1);
            }
        },
        ElementView::ArrayValue(values) => {
            let inner = wire_values(values)->Ok_0;
            let count = bytes_u16(values.len() as u16);
            assert(bytes =~= seq![v.tag] + (count + (inner + none)));
            lemma_u8_prefix(v.tag, count + (inner + none), k);
            if k >= 1 {
                lemma_u16_prefix(values.len() as u16, inner + none, k - 1);
                if k >= 3 {
                    lemma_values_prefix(values, none, k - 3);
                }
            }
        },
    }
}

/// The bytes of an annotation, cut short, give a wrong length.
pub proof fn lemma_annotation_truncated(a: AnnotationView, k: int)
    requires
        wire_annotation(a) is Ok,
        0 <= k < wire_annotation(a)->Ok_0.len(),
    ensures
        parse_annotation(wire_annotation(a)->Ok_0.take(k)) == Err::<
            (AnnotationView, Seq<u8>),
            ErrorView,
        >(ErrorView::InvalidLength),
    decreases a, 0nat,
{
    let none = Seq::<u8>::empty();
    let table = wire_pair_table(a.element_value_pairs)->Ok_0;
    assert(wire_annotation(a)->Ok_0 =~= bytes_u16(a.type_index) + (table + none));
    lemma_u16_prefix(a.type_index, table + none, k);
    if k >= 2 {
        lemma_pair_table_prefix(a.element_value_pairs, none, k - 2);
    }
}

/// Of the bytes of a table of pairs with more bytes behind them, cut off
/// anywhere: cut inside the table they give a wrong length, cut behind it
/// they give the table and what is left of the rest.
pub proof fn lemma_pair_table_prefix(
    pairs: Seq<(u16, ElementValueView)>,
    rest: Seq<u8>,
    k: int,
)
    requires
        wire_pair_table(pairs) is Ok,
        0 <= k <= wire_pair_table(pairs)->Ok_0.len() + rest.len(),
    ensures
        parse_pair_table((wire_pair_table(pairs)->Ok_0 + rest).take(k)) == if k < wire_pair_table(
            pairs,
        )->Ok_0.len() {
            Err::<(Seq<(u16, ElementValueView)>, Seq<u8>), ErrorView>(ErrorView::InvalidLength)
        } else {
            Ok((pairs, rest.take(k - wire_pair_table(pairs)->Ok_0.len())))
        },
    decreases pairs, 2nat,
{
    let rows = wire_pairs(pairs)->Ok_0;
    let count = bytes_u16(pairs.len() as u16);
    assert((count + rows) + rest =~= count + (rows + rest));
    lemma_u16_prefix(pairs.len() as u16, rows + rest, k);
    if k >= 2 {
        lemma_pairs_prefix(pairs, rest, k - 2);
    }
}

proof fn lemma_pairs_prefix(pairs: Seq<(u16, ElementValueView)>, rest: Seq<u8>, k: int)
    requires
        wire_pairs(pairs) is Ok,
        0 <= k <= wire_pairs(pairs)->Ok_0.len() + rest.len(),
    ensures
        parse_pairs((wire_pairs(pairs)->Ok_0 + rest).take(k), pairs.len()) == if k < wire_pairs(
            pairs,
        )->Ok_0.len() {
            Err::<(Seq<(u16, ElementValueView)>, Seq<u8>), ErrorView>(ErrorView::InvalidLength)
        } else {
            Ok((pairs, rest.take(k - wire_pairs(pairs)->Ok_0.len())))
        },
    decreases pairs, 1nat,
{
    let bytes = wire_pairs(pairs)->Ok_0;
    if pairs.len() == 0 {
        assert((bytes + rest).take(k) =~= rest.take(k));
        assert(pairs =~= Seq::<(u16, ElementValueView)>::empty());
    } else {
        let value = wire_element_value(pairs[0].1)->Ok_0;
        let others = wire_pairs(pairs.skip(1))->Ok_0;
        let behind_value = others + rest;
        assert(bytes + rest =~= bytes_u16(pairs[0].0) + (value + behind_value));
        lemma_u16_prefix(pairs[0].0, value + behind_value, k);
        if k >= 2 {
            let j = k - 2;
            if j < value.len() {
                assert((value + behind_value).take(j) =~= value.take(j));
                lemma_element_value_truncated(pairs[0].1, j);
            } else {
                let left = behind_value.take(j - value.len());
                assert((value + behind_value).take(j) =~= value + left);
                lemma_element_value_round_trip(pairs[0].1, left);
                lemma_pairs_prefix(pairs.skip(1), rest, j - value.len());
                assert(seq![pairs[0]] + pairs.skip(1) =~= pairs);
            }
        }
    }
}

proof fn lemma_values_prefix(values: Seq<ElementValueView>, rest: Seq<u8>, k: int)
    requires
        wire_values(values) is Ok,
        0 <= k <= wire_values(values)->Ok_0.len() + rest.len(),
    ensures
        parse_values((wire_values(values)->Ok_0 + rest).take(k), values.len()) == if k
            < wire_values(values)->Ok_0.len() {
            Err::<(Seq<ElementValueView>, Seq<u8>), ErrorView>(ErrorView::InvalidLength)
        } else {
            Ok((values, rest.take(k - wire_values(values)->Ok_0.len())))
        },
    decreases values, 1nat,
{
    let bytes = wire_values(values)->Ok_0;
    if values.len() == 0 {
        assert((bytes + rest).take(k) =~= rest.take(k));
        assert(values =~= Seq::<ElementValueView>::empty());
    } else {
        let value = wire_element_value(values[0])->Ok_0;
        let others = wire_values(values.skip(1))->Ok_0;
        let behind_value = others + rest;
        assert(bytes + rest =~= value + behind_value);
        if k < value.len() {
            assert((value + behind_value).take(k) =~= value.take(k));
            lemma_element_value_truncated(values[0], k);
        } else {
            let left = behind_value.take(k - value.len());
            assert((value + behind_value).take(k) =~= value + left);
            lemma_element_value_round_trip(values[0], left);
            lemma_values_prefix(values.skip(1), rest, k - value.len());
            assert(seq![values[0]] + values.skip(1) =~= values);
        }
    }
}

impl Wire for ElementValue {
    open spec fn parse(s: Seq<u8>) -> Parsed<ElementValueView> {
        parse_element_value(s)
    }

    open spec fn wire(v: ElementValueView) -> Wired {
        wire_element_value(v)
    }

    fn decode(buf: &mut BytesMut) -> (r: Result<ElementValue, Error>) {
        decode_element_value(buf)
    }

    fn write(&self, out: &mut Vec<u8>) -> (r: Result<usize, Error>) {
        write_element_value(self, out)
    }

    fn encode(&self, out: &mut Vec<u8>) -> (r: Result<usize, Error>) {
        encode_element_value(self, out)
    }

    proof fn lemma_round_trip(v: ElementValueView, tail: Seq<u8>) {
        lemma_element_value_round_trip(v, tail);
    }

    proof fn lemma_exact(s: Seq<u8>) {
        lemma_element_value_exact(s);
    }

    proof fn lemma_truncated(v: ElementValueView, k: int) {
        lemma_element_value_truncated(v, k);
    }
}

impl Wire for Annotation {
    open spec fn parse(s: Seq<u8>) -> Parsed<AnnotationView> {
        parse_annotation(s)
    }

    open spec fn wire(v: AnnotationView) -> Wired {
        wire_annotation(v)
    }

    fn decode(buf: &mut BytesMut) -> (r: Result<Annotation, Error>) {
        decode_annotation(buf)
    }

    fn write(&self, out: &mut Vec<u8>) -> (r: Result<usize, Error>) {
        write_annotation(self, out)
    }

    fn encode(&self, out: &mut Vec<u8>) -> (r: Result<usize, Error>) {
        encode_annotation(self, out)
    }

    proof fn lemma_round_trip(v: AnnotationView, tail: Seq<u8>) {
        lemma_annotation_round_trip(v, tail);
    }

    proof fn lemma_exact(s: Seq<u8>) {
        lemma_annotation_exact(s);
    }

    proof fn lemma_truncated(v: AnnotationView, k: int) {
        lemma_annotation_truncated(v, k);
    }
}

impl Wire for ParameterAnnotation {
    open spec fn parse(s: Seq<u8>) -> Parsed<ParameterAnnotationView> {
        match parse_table16::<Annotation>(s) {
            Err(e) => Err(e),
            Ok((annotations, rest)) => Ok((ParameterAnnotationView { annotations }, rest)),
        }
    }

    open spec fn wire(v: ParameterAnnotationView) -> Wired {
        wire_table16::<Annotation>(v.annotations)
    }

    fn decode(buf: &mut BytesMut) -> (r: Result<ParameterAnnotation, Error>) {
        let annotations = read_table16::<Annotation>(buf)?;
        Ok(ParameterAnnotation { annotations })
    }

    fn write(&self, out: &mut Vec<u8>) -> (r: Result<usize, Error>) {
        write_table16::<Annotation>(&self.annotations, out)
    }

    fn encode(&self, out: &mut Vec<u8>) -> (r: Result<usize, Error>) {
        let start = out.len();
        let r = self.write(out);
        settle(out, start, r)
    }

    proof fn lemma_round_trip(v: ParameterAnnotationView, tail: Seq<u8>) {
        lemma_table16_round_trip::<Annotation>(v.annotations, tail);
    }

    proof fn lemma_exact(s: Seq<u8>) {
        lemma_table16_exact::<Annotation>(s);
    }

    proof fn lemma_truncated(v: ParameterAnnotationView, k: int) {
        let none = Seq::<u8>::empty();
        assert(Self::wire(v)->Ok_0 =~= Self::wire(v)->Ok_0 + none);
        lemma_table16_prefix::<Annotation>(v.annotations, none, k);
    }
}

} // verus!
