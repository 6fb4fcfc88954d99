//! Type annotations: an annotation on a use of a type, with the place of that
//! use given by a target type byte and the target info that belongs to it.

use vstd::prelude::*;
use bytes::BytesMut;
use crate::attribute::annotation::{
    decode_pair_table, write_pair_table, lemma_pair_table_exact, lemma_pair_table_prefix,
    lemma_pair_table_round_trip, parse_pair_table, wire_pair_table, ElementValue,
    ElementValueView,
};
use crate::attribute::records::LocalVar;
use crate::codec::{
    join, lemma_prefix, lemma_table16_exact, lemma_table16_prefix, lemma_table16_round_trip,
    lemma_table8_exact, lemma_table8_prefix, lemma_table8_round_trip, parse_table16,
    parse_table8, read_table16, read_table8, wire_table16, wire_table8, write_table16,
    write_table8, Wire,
};
use crate::error::Error;
use crate::error::ErrorView;
use crate::wire::{
    bytes_u16, group_wire_round_trip, lemma_u16_exact, lemma_u16_prefix, lemma_u8_exact,
    lemma_u8_prefix, parse_u16, parse_u8, push_u16, push_u8, read_u16, read_u8, settle, Parsed, Wired,
};

verus! {

impl Wire for (u8, u8) {
    open spec fn parse(s: Seq<u8>) -> Parsed<(u8, u8)> {
        match parse_u8(s) {
            Err(e) => Err(e),
            Ok((a, s1)) => match parse_u8(s1) {
                Err(e) => Err(e),
                Ok((b, s2)) => Ok(((a, b), s2)),
            },
        }
    }

    open spec fn wire(v: (u8, u8)) -> Wired {
        Ok(seq![v.0] + seq![v.1])
    }

    fn decode(buf: &mut BytesMut) -> (r: Result<(u8, u8), Error>) {
        let a = read_u8(buf)?;
        let b = read_u8(buf)?;
        Ok((a, b))
    }

    fn write(&self, out: &mut Vec<u8>) -> (r: Result<usize, Error>) {
        push_u8(out, self.0);
        push_u8(out, self.1);
        proof {
            assert(out@ =~= old(out)@ + (seq![self.0] + seq![self.1]));
        }
        Ok(2)
    }

    fn encode(&self, out: &mut Vec<u8>) -> (r: Result<usize, Error>) {
        let start = out.len();
        let r = self.write(out);
        settle(out, start, r)
    }

    proof fn lemma_round_trip(v: (u8, u8), tail: Seq<u8>) {
        broadcast use group_wire_round_trip;

    }

    proof fn lemma_exact(s: Seq<u8>) {
        lemma_u8_exact(s);
        let s1 = parse_u8(s)->Ok_0.1;
        lemma_u8_exact(s1);
        let a = seq![parse_u8(s)->Ok_0.0];
        let b = seq![parse_u8(s1)->Ok_0.0];
        let rest = parse_u8(s1)->Ok_0.1;
        assert((a + b) + rest =~= a + (b + rest));
    }

    proof fn lemma_truncated(v: (u8, u8), k: int) {
        let none = Seq::<u8>::empty();
        assert(Self::wire(v)->Ok_0 =~= seq![v.0] + (seq![v.1] + none));
        lemma_u8_prefix(v.0, seq![v.1] + none, k);
        if k >= 1 {
            lemma_u8_prefix(v.1, none, k - 1);
        }
    }
}

/// The way from an annotated type to the part of it that is annotated. Each
/// step is a kind and a type-argument index.
#[derive(Debug, Clone, PartialEq, Eq)]
pub struct TypePath {
    pub path: Vec<(u8, u8)>,
}

/// The model of a [`TypePath`].
pub struct TypePathView {
    pub path: Seq<(u8, u8)>,
}

impl DeepView for TypePath {
    type V = TypePathView;

    open spec fn deep_view(&self) -> TypePathView {
        TypePathView { path: self.path.deep_view() }
    }
}

impl Wire for TypePath {
    open spec fn parse(s: Seq<u8>) -> Parsed<TypePathView> {
        match parse_table8::<(u8, u8)>(s) {
            Err(e) => Err(e),
            Ok((path, rest)) => Ok((TypePathView { path }, rest)),
        }
    }

    open spec fn wire(v: TypePathView) -> Wired {
        wire_table8::<(u8, u8)>(v.path)
    }

    fn decode(buf: &mut BytesMut) -> (r: Result<TypePath, Error>) {
        let path = read_table8::<(u8, u8)>(buf)?;
        Ok(TypePath { path })
    }

    fn write(&self, out: &mut Vec<u8>) -> (r: Result<usize, Error>) {
        write_table8::<(u8, u8)>(&self.path, out)
    }

    fn encode(&self, out: &mut Vec<u8>) -> (r: Result<usize, Error>) {
        let start = out.len();
        let r = self.write(out);
        settle(out, start, r)
    }

    proof fn lemma_round_trip(v: TypePathView, tail: Seq<u8>) {
        lemma_table8_round_trip::<(u8, u8)>(v.path, tail);
    }

    proof fn lemma_exact(s: Seq<u8>) {
        lemma_table8_exact::<(u8, u8)>(s);
    }

    proof fn lemma_truncated(v: TypePathView, k: int) {
        let none = Seq::<u8>::empty();
        assert(Self::wire(v)->Ok_0 =~= Self::wire(v)->Ok_0 + none);
        lemma_table8_prefix::<(u8, u8)>(v.path, none, k);
    }
}

/// Where a type annotation applies.
#[derive(Debug, Clone, PartialEq, Eq)]
pub enum TargetInfo {
    /// The index of a type parameter (target types 0x00 and 0x01).
    TypeParameterTarget(u8),
    /// The index of a supertype (target type 0x10).
    SupertypeTarget(u16),
    /// A bound of a type parameter (target types 0x11 and 0x12).
    TypeParameterBoundTarget { type_parameter_index: u8, bound_index: u8 },
    /// Nothing more (target types 0x13 to 0x15).
    EmptyTarget,
    /// The index of a formal parameter (target type 0x16).
    FormalParameterTarget(u8),
    /// The index of a thrown type (target type 0x17).
    ThrowTarget(u16),
    /// The ranges in which a local variable lives (target types 0x40 and 0x41).
    LocalVarTarget(Vec<LocalVar>),
    /// The index of an exception-table row (target type 0x42).
    CatchTarget(u16),
    /// A bytecode offset (target types 0x43 to 0x46).
    OffsetTarget(u16),
    /// A bytecode offset and a type-argument index (target types 0x47 to 0x4B).
    TypeArgumentTarget { offset: u16, type_argument_index: u8 },
}

/// The model of a [`TargetInfo`].
pub enum TargetInfoView {
    TypeParameterTarget(u8),
    SupertypeTarget(u16),
    TypeParameterBoundTarget { type_parameter_index: u8, bound_index: u8 },
    EmptyTarget,
    FormalParameterTarget(u8),
    ThrowTarget(u16),
    LocalVarTarget(Seq<LocalVar>),
    CatchTarget(u16),
    OffsetTarget(u16),
    TypeArgumentTarget { offset: u16, type_argument_index: u8 },
}

impl DeepView for TargetInfo {
    type V = TargetInfoView;

    open spec fn deep_view(&self) -> TargetInfoView {
        match *self {
            TargetInfo::TypeParameterTarget(index) => TargetInfoView::TypeParameterTarget(index),
            TargetInfo::SupertypeTarget(index) => TargetInfoView::SupertypeTarget(index),
            TargetInfo::TypeParameterBoundTarget {
                type_parameter_index,
                bound_index,
            } => TargetInfoView::TypeParameterBoundTarget { type_parameter_index, bound_index },
            TargetInfo::EmptyTarget => TargetInfoView::EmptyTarget,
            TargetInfo::FormalParameterTarget(index) =>
                TargetInfoView::FormalParameterTarget(index),
            TargetInfo::ThrowTarget(index) => TargetInfoView::ThrowTarget(index),
            TargetInfo::LocalVarTarget(table) => TargetInfoView::LocalVarTarget(table.deep_view()),
            TargetInfo::CatchTarget(index) => TargetInfoView::CatchTarget(index),
            TargetInfo::OffsetTarget(offset) => TargetInfoView::OffsetTarget(offset),
            TargetInfo::TypeArgumentTarget {
                offset,
                type_argument_index,
            } => TargetInfoView::TypeArgumentTarget { offset, type_argument_index },
        }
    }
}

/// An annotation on a use of a type.
#[derive(Debug, PartialEq, Eq)]
pub struct TypeAnnotation {
    pub target_type: u8,
    pub target_info: TargetInfo,
    pub type_path: TypePath,
    pub type_index: u16,
    /// Each pair is the pool index of the element's name and its value.
    pub element_value_pairs: Vec<(u16, ElementValue)>,
}

/// The model of a [`TypeAnnotation`].
pub struct TypeAnnotationView {
    pub target_type: u8,
    pub target_info: TargetInfoView,
    pub type_path: TypePathView,
    pub type_index: u16,
    pub element_value_pairs: Seq<(u16, ElementValueView)>,
}

impl DeepView for TypeAnnotation {
    type V = TypeAnnotationView;

    open spec fn deep_view(&self) -> TypeAnnotationView {
        TypeAnnotationView {
            target_type: self.target_type,
            target_info: self.target_info.deep_view(),
            type_path: self.type_path.deep_view(),
            type_index: self.type_index,
            element_value_pairs: self.element_value_pairs.deep_view(),
        }
    }
}

/// The target types that the format assigns.
pub open spec fn is_target_type(target_type: u8) -> bool {
    target_type <= 0x01 || (0x10 <= target_type <= 0x17) || (0x40 <= target_type <= 0x4B)
}

/// The target info that follows the target type byte `target_type`.
pub open spec fn parse_target_info(target_type: u8, s: Seq<u8>) -> Parsed<TargetInfoView> {
    if target_type <= 0x01 {
        match parse_u8(s) {
            Err(e) => Err(e),
            Ok((index, rest)) => Ok((TargetInfoView::TypeParameterTarget(index), rest)),
        }
    } else if target_type == 0x10 {
        match parse_u16(s) {
            Err(e) => Err(e),
            Ok((index, rest)) => Ok((TargetInfoView::SupertypeTarget(index), rest)),
        }
    } else if target_type == 0x11 || target_type == 0x12 {
        match parse_u8(s) {
            Err(e) => Err(e),
            Ok((type_parameter_index, s1)) => match parse_u8(s1) {
                Err(e) => Err(e),
                Ok((bound_index, rest)) => Ok(
                    (
                        TargetInfoView::TypeParameterBoundTarget { type_parameter_index, bound_index },
                        rest,
                    ),
                ),
            },
        }
    } else if 0x13 <= target_type <= 0x15 {
        Ok((TargetInfoView::EmptyTarget, s))
    } else if target_type == 0x16 {
        match parse_u8(s) {
            Err(e) => Err(e),
            Ok((index, rest)) => Ok((TargetInfoView::FormalParameterTarget(index), rest)),
        }
    } else if target_type == 0x17 {
        match parse_u16(s) {
            Err(e) => Err(e),
            Ok((index, rest)) => Ok((TargetInfoView::ThrowTarget(index), rest)),
        }
    } else if target_type == 0x40 || target_type == 0x41 {
        match parse_table16::<LocalVar>(s) {
            Err(e) => Err(e),
            Ok((table, rest)) => Ok((TargetInfoView::LocalVarTarget(table), rest)),
        }
    } else if target_type == 0x42 {
        match parse_u16(s) {
            Err(e) => Err(e),
            Ok((index, rest)) => Ok((TargetInfoView::CatchTarget(index), rest)),
        }
    } else if 0x43 <= target_type <= 0x46 {
        match parse_u16(s) {
            Err(e) => Err(e),
            Ok((offset, rest)) => Ok((TargetInfoView::OffsetTarget(offset), rest)),
        }
    } else if 0x47 <= target_type <= 0x4B {
        match parse_u16(s) {
            Err(e) => Err(e),
            Ok((offset, s1)) => match parse_u8(s1) {
                Err(e) => Err(e),
                Ok((type_argument_index, rest)) => Ok(
                    (TargetInfoView::TypeArgumentTarget { offset, type_argument_index }, rest),
                ),
            },
        }
    } else {
        Err(ErrorView::InvalidTargetType(target_type))
    }
}

/// The bytes of a target info after the target type byte `target_type`. An
/// unassigned target type has none, nor has a target info of another kind
/// than the target type implies.
pub open spec fn wire_target_info(target_type: u8, info: TargetInfoView) -> Wired {
    if !is_target_type(target_type) {
        Err(ErrorView::InvalidTargetType(target_type))
    } else {
        match info {
            TargetInfoView::TypeParameterTarget(index) => if target_type <= 0x01 {
                Ok(seq![index])
            } else {
                Err(ErrorView::InvalidTargetInfo)
            },
            TargetInfoView::SupertypeTarget(index) => if target_type == 0x10 {
                Ok(bytes_u16(index))
            } else {
                Err(ErrorView::InvalidTargetInfo)
            },
            TargetInfoView::TypeParameterBoundTarget { type_parameter_index, bound_index } =>
                if target_type
                == 0x11 || target_type == 0x12 {
                Ok(seq![type_parameter_index] + seq![bound_index])
            } else {
                Err(ErrorView::InvalidTargetInfo)
            },
            TargetInfoView::EmptyTarget => if 0x13 <= target_type <= 0x15 {
                Ok(Seq::empty())
            } else {
                Err(ErrorView::InvalidTargetInfo)
            },
            TargetInfoView::FormalParameterTarget(index) => if target_type == 0x16 {
                Ok(seq![index])
            } else {
                Err(ErrorView::InvalidTargetInfo)
            },
            TargetInfoView::ThrowTarget(index) => if target_type == 0x17 {
                Ok(bytes_u16(index))
            } else {
                Err(ErrorView::InvalidTargetInfo)
            },
            TargetInfoView::LocalVarTarget(table) => if target_type == 0x40 || target_type == 0x41 {
                wire_table16::<LocalVar>(table)
            } else {
                Err(ErrorView::InvalidTargetInfo)
            },
            TargetInfoView::CatchTarget(index) => if target_type == 0x42 {
                Ok(bytes_u16(index))
            } else {
                Err(ErrorView::InvalidTargetInfo)
            },
            TargetInfoView::OffsetTarget(offset) => if 0x43 <= target_type <= 0x46 {
                Ok(bytes_u16(offset))
            } else {
                Err(ErrorView::InvalidTargetInfo)
            },
            TargetInfoView::TypeArgumentTarget { offset, type_argument_index } => if 0x47
                <= target_type <= 0x4B {
                Ok(bytes_u16(offset) + seq![type_argument_index])
            } else {
                Err(ErrorView::InvalidTargetInfo)
            },
        }
    }
}

/// Reads the target info that follows the target type byte `target_type`.
pub fn decode_target_info(target_type: u8, buf: &mut BytesMut) -> (r: Result<TargetInfo, Error>)
    ensures
        crate::wire::decodes(
            r,
            crate::wire::unread(*old(buf)),
            crate::wire::unread(*final(buf)),
            parse_target_info(target_type, crate::wire::unread(*old(buf))),
        ),
{
    if target_type <= 0x01 {
        let index = read_u8(buf)?;
        Ok(TargetInfo::TypeParameterTarget(index))
    } else if target_type == 0x10 {
        let index = read_u16(buf)?;
        Ok(TargetInfo::SupertypeTarget(index))
    } else if target_type == 0x11 || target_type == 0x12 {
        let type_parameter_index = read_u8(buf)?;
        let bound_index = read_u8(buf)?;
        Ok(TargetInfo::TypeParameterBoundTarget { type_parameter_index, bound_index })
    } else if 0x13 <= target_type && target_type <= 0x15 {
        Ok(TargetInfo::EmptyTarget)
    } else if target_type == 0x16 {
        let index = read_u8(buf)?;
        Ok(TargetInfo::FormalParameterTarget(index))
    } else if target_type == 0x17 {
        let index = read_u16(buf)?;
        Ok(TargetInfo::ThrowTarget(index))
    } else if target_type == 0x40 || target_type == 0x41 {
        let table = read_table16::<LocalVar>(buf)?;
        Ok(TargetInfo::LocalVarTarget(table))
    } else if target_type == 0x42 {
        let index = read_u16(buf)?;
        Ok(TargetInfo::CatchTarget(index))
    } else if 0x43 <= target_type && target_type <= 0x46 {
        let offset = read_u16(buf)?;
        Ok(TargetInfo::OffsetTarget(offset))
    } else if 0x47 <= target_type && target_type <= 0x4B {
        let offset = read_u16(buf)?;
        let type_argument_index = read_u8(buf)?;
        Ok(TargetInfo::TypeArgumentTarget { offset, type_argument_index })
    } else {
        Err(Error::InvalidTargetType(target_type))
    }
}

/// Appends the bytes of a target info that belongs to `target_type`. Where
/// the target info has no bytes, `out` may have grown by a part of them.
pub fn write_target_info(target_type: u8, info: &TargetInfo, out: &mut Vec<u8>) -> (r: Result<
    usize,
    Error,
>)
    ensures
        crate::wire::encodes(
            r,
            old(out)@,
            final(out)@,
            wire_target_info(target_type, info.deep_view()),
        ),
{
    let start = out.len();
    let assigned = target_type <= 0x01 || (0x10 <= target_type && target_type <= 0x17) || (0x40
        <= target_type && target_type <= 0x4B);
    if !assigned {
        return Err(Error::InvalidTargetType(target_type));
    }
    match info {
        TargetInfo::TypeParameterTarget(index) => {
            if target_type > 0x01 {
                return Err(Error::InvalidTargetInfo);
            }
            push_u8(out, *index);
        },
        TargetInfo::SupertypeTarget(index) => {
            if target_type != 0x10 {
                return Err(Error::InvalidTargetInfo);
            }
            push_u16(out, *index);
        },
        TargetInfo::TypeParameterBoundTarget { type_parameter_index, bound_index } => {
            if target_type != 0x11 && target_type != 0x12 {
                return Err(Error::InvalidTargetInfo);
            }
            push_u8(out, *type_parameter_index);
            push_u8(out, *bound_index);
            proof {
                assert(out@ =~= old(out)@ + (seq![*type_parameter_index] + seq![*bound_index]));
            }
        },
        TargetInfo::EmptyTarget => {
            if target_type < 0x13 || target_type > 0x15 {
                return Err(Error::InvalidTargetInfo);
            }
            proof {
                assert(out@ =~= old(out)@ + Seq::<u8>::empty());
            }
        },
        TargetInfo::FormalParameterTarget(index) => {
            if target_type != 0x16 {
                return Err(Error::InvalidTargetInfo);
            }
            push_u8(out, *index);
        },
        TargetInfo::ThrowTarget(index) => {
            if target_type != 0x17 {
                return Err(Error::InvalidTargetInfo);
            }
            push_u16(out, *index);
        },
        TargetInfo::LocalVarTarget(table) => {
            if target_type != 0x40 && target_type != 0x41 {
                return Err(Error::InvalidTargetInfo);
            }
            write_table16::<LocalVar>(table, out)?;
        },
        TargetInfo::CatchTarget(index) => {
            if target_type != 0x42 {
                return Err(Error::InvalidTargetInfo);
            }
            push_u16(out, *index);
        },
        TargetInfo::OffsetTarget(offset) => {
            if target_type < 0x43 || target_type > 0x46 {
                return Err(Error::InvalidTargetInfo);
            }
            push_u16(out, *offset);
        },
        TargetInfo::TypeArgumentTarget { offset, type_argument_index } => {
            if target_type < 0x47 || target_type > 0x4B {
                return Err(Error::InvalidTargetInfo);
            }
            push_u16(out, *offset);
            push_u8(out, *type_argument_index);
            proof {
                assert(out@ =~= old(out)@ + (bytes_u16(*offset) + seq![*type_argument_index]));
            }
        },
    }
    Ok(out.len() - start)
}

/// Appends the bytes of a target info that belongs to `target_type`. A
/// target info that has no bytes leaves `out` as it was.
pub fn encode_target_info(target_type: u8, info: &TargetInfo, out: &mut Vec<u8>) -> (r: Result<
    usize,
    Error,
>)
    ensures
        crate::wire::encodes(
            r,
            old(out)@,
            final(out)@,
            wire_target_info(target_type, info.deep_view()),
        ),
        r is Err ==> final(out)@ == old(out)@,
{
    let start = out.len();
    let r = write_target_info(target_type, info, out);
    settle(out, start, r)
}

/// Parsing the bytes of a target info gives the target info back.
pub proof fn lemma_target_info_round_trip(target_type: u8, info: TargetInfoView, tail: Seq<u8>)
    requires
        wire_target_info(target_type, info) is Ok,
    ensures
        parse_target_info(target_type, wire_target_info(target_type, info)->Ok_0 + tail) == Ok::<
            (TargetInfoView, Seq<u8>),
            ErrorView,
        >((info, tail)),
{
    broadcast use group_wire_round_trip;

    match info {
        TargetInfoView::EmptyTarget => {
            assert(Seq::<u8>::empty() + tail =~= tail);
        },
        TargetInfoView::LocalVarTarget(table) => {
            lemma_table16_round_trip::<LocalVar>(table, tail);
        },
        _ => {},
    }
}

/// A target info that was parsed is written back as the bytes that it was
/// parsed from.
pub proof fn lemma_target_info_exact(target_type: u8, s: Seq<u8>)
    requires
        parse_target_info(target_type, s) is Ok,
    ensures
        wire_target_info(target_type, parse_target_info(target_type, s)->Ok_0.0) is Ok,
        wire_target_info(target_type, parse_target_info(target_type, s)->Ok_0.0)->Ok_0
            + parse_target_info(target_type, s)->Ok_0.1 == s,
{
    if target_type <= 0x01 || target_type == 0x16 {
        lemma_u8_exact(s);
    } else if target_type == 0x10 || target_type == 0x17 || (0x42 <= target_type <= 0x46) {
        lemma_u16_exact(s);
    } else if target_type == 0x11 || target_type == 0x12 {
        lemma_u8_exact(s);
        let s1 = parse_u8(s)->Ok_0.1;
        lemma_u8_exact(s1);
        let a = seq![parse_u8(s)->Ok_0.0];
        let b = seq![parse_u8(s1)->Ok_0.0];
        let rest = parse_u8(s1)->Ok_0.1;
        assert((a + b) + rest =~= a + (b + rest));
    } else if 0x13 <= target_type <= 0x15 {
        assert(Seq::<u8>::empty() + s =~= s);
    } else if target_type == 0x40 || target_type == 0x41 {
        lemma_table16_exact::<LocalVar>(s);
    } else if 0x47 <= target_type <= 0x4B {
        lemma_u16_exact(s);
        let s1 = parse_u16(s)->Ok_0.1;
        lemma_u8_exact(s1);
        let a = bytes_u16(parse_u16(s)->Ok_0.0);
        let b = seq![parse_u8(s1)->Ok_0.0];
        let rest = parse_u8(s1)->Ok_0.1;
        assert((a + b) + rest =~= a + (b + rest));
    }
}

/// Of the bytes of a target info with more bytes behind them, cut off
/// anywhere: cut inside the target info they give a wrong length, cut behind
/// it they give the target info and what is left of the rest.
pub proof fn lemma_target_info_prefix(
    target_type: u8,
    info: TargetInfoView,
    rest: Seq<u8>,
    k: int,
)
    requires
        wire_target_info(target_type, info) is Ok,
        0 <= k <= wire_target_info(target_type, info)->Ok_0.len() + rest.len(),
    ensures
        parse_target_info(target_type, (wire_target_info(target_type, info)->Ok_0 + rest).take(k))
            == if k < wire_target_info(target_type, info)->Ok_0.len() {
            Err::<(TargetInfoView, Seq<u8>), ErrorView>(ErrorView::InvalidLength)
        } else {
            Ok((info, rest.take(k - wire_target_info(target_type, info)->Ok_0.len())))
        },
{
    let bytes = wire_target_info(target_type, info)->Ok_0;
    match info {
        TargetInfoView::TypeParameterTarget(index) => {
            lemma_u8_prefix(index, rest, k);
        },
        TargetInfoView::SupertypeTarget(index) => {
            lemma_u16_prefix(index, rest, k);
        },
        TargetInfoView::TypeParameterBoundTarget { type_parameter_index, bound_index } => {
            assert(bytes + rest =~= seq![type_parameter_index] + (seq![bound_index] + rest));
            lemma_u8_prefix(type_parameter_index, seq![bound_index] + rest, k);
            if k >= 1 {
                lemma_u8_prefix(bound_index, rest, k - 1);
            }
        },
        TargetInfoView::EmptyTarget => {
            assert(bytes + rest =~= rest);
        },
        TargetInfoView::FormalParameterTarget(index) => {
            lemma_u8_prefix(index, rest, k);
        },
        TargetInfoView::ThrowTarget(index) => {
            lemma_u16_prefix(index, rest, k);
        },
        TargetInfoView::LocalVarTarget(table) => {
            lemma_table16_prefix::<LocalVar>(table, rest, k);
        },
        TargetInfoView::CatchTarget(index) => {
            lemma_u16_prefix(index, rest, k);
        },
        TargetInfoView::OffsetTarget(offset) => {
            lemma_u16_prefix(offset, rest, k);
        },
        TargetInfoView::TypeArgumentTarget { offset, type_argument_index } => {
            assert(bytes + rest =~= bytes_u16(offset) + (seq![type_argument_index] + rest));
            lemma_u16_prefix(offset, seq![type_argument_index] + rest, k);
            if k >= 2 {
                lemma_u8_prefix(type_argument_index, rest, k - 2);
            }
        },
    }
}

impl Wire for TypeAnnotation {
    open spec fn parse(s: Seq<u8>) -> Parsed<TypeAnnotationView> {
        match parse_u8(s) {
            Err(e) => Err(e),
            Ok((target_type, s1)) => match parse_target_info(target_type, s1) {
                Err(e) => Err(e),
                Ok((target_info, s2)) => match TypePath::parse(s2) {
                    Err(e) => Err(e),
                    Ok((type_path, s3)) => match parse_u16(s3) {
                        Err(e) => Err(e),
                        Ok((type_index, s4)) => match parse_pair_table(s4) {
                            Err(e) => Err(e),
                            Ok((element_value_pairs, rest)) => Ok(
                                (
                                    TypeAnnotationView {
                                        target_type,
                                        target_info,
                                        type_path,
                                        type_index,
                                        element_value_pairs,
                                    },
                                    rest,
                                ),
                            ),
                        },
                    },
                },
            },
        }
    }

    open spec fn wire(v: TypeAnnotationView) -> Wired {
        join(
            Ok(seq![v.target_type]),
            join(
                wire_target_info(v.target_type, v.target_info),
                join(
                    TypePath::wire(v.type_path),
                    join(Ok(bytes_u16(v.type_index)), wire_pair_table(v.element_value_pairs)),
                ),
            ),
        )
    }

    fn decode(buf: &mut BytesMut) -> (r: Result<TypeAnnotation, Error>) {
        let target_type = read_u8(buf)?;
        let target_info = decode_target_info(target_type, buf)?;
        let type_path = TypePath::decode(buf)?;
        let type_index = read_u16(buf)?;
        let element_value_pairs = decode_pair_table(buf)?;
        Ok(TypeAnnotation { target_type, target_info, type_path, type_index, element_value_pairs })
    }

    fn write(&self, out: &mut Vec<u8>) -> (r: Result<usize, Error>) {
        let start = out.len();
        push_u8(out, self.target_type);
        write_target_info(self.target_type, &self.target_info, out)?;
        self.type_path.write(out)?;
        push_u16(out, self.type_index);
        write_pair_table(&self.element_value_pairs, out)?;
        proof {
            let v = self.deep_view();
            let info = wire_target_info(v.target_type, v.target_info)->Ok_0;
            let path = TypePath::wire(v.type_path)->Ok_0;
            let pairs = wire_pair_table(v.element_value_pairs)->Ok_0;
            assert(out@ =~= old(out)@ + (seq![v.target_type] + (info + (path + (bytes_u16(
                v.type_index,
            ) + pairs)))));
        }
        Ok(out.len() - start)
    }

    fn encode(&self, out: &mut Vec<u8>) -> (r: Result<usize, Error>) {
        let start = out.len();
        let r = self.write(out);
        settle(out, start, r)
    }

    proof fn lemma_round_trip(v: TypeAnnotationView, tail: Seq<u8>) {
        broadcast use group_wire_round_trip;

        let info = wire_target_info(v.target_type, v.target_info)->Ok_0;
        let path = TypePath::wire(v.type_path)->Ok_0;
        let pairs = wire_pair_table(v.element_value_pairs)->Ok_0;
        let index = bytes_u16(v.type_index);
        assert(Self::wire(v)->Ok_0 + tail == seq![v.target_type] + (info + (path + (index + (pairs
            + tail)))));
        lemma_target_info_round_trip(v.target_type, v.target_info, path + (index + (pairs + tail)));
        TypePath::lemma_round_trip(v.type_path, index + (pairs + tail));
        lemma_pair_table_round_trip(v.element_value_pairs, tail);
    }

    proof fn lemma_exact(s: Seq<u8>) {
        lemma_u8_exact(s);
        let target_type = parse_u8(s)->Ok_0.0;
        let s1 = parse_u8(s)->Ok_0.1;
        lemma_target_info_exact(target_type, s1);
        let s2 = parse_target_info(target_type, s1)->Ok_0.1;
        TypePath::lemma_exact(s2);
        let s3 = TypePath::parse(s2)->Ok_0.1;
        lemma_u16_exact(s3);
        let s4 = parse_u16(s3)->Ok_0.1;
        lemma_pair_table_exact(s4);
        let v = Self::parse(s)->Ok_0.0;
        let rest = Self::parse(s)->Ok_0.1;
        let info = wire_target_info(v.target_type, v.target_info)->Ok_0;
        let path = TypePath::wire(v.type_path)->Ok_0;
        let index = bytes_u16(v.type_index);
        let pairs = wire_pair_table(v.element_value_pairs)->Ok_0;
        assert((seq![target_type] + (info + (path + (index + pairs)))) + rest =~= seq![target_type]
            + (info + (path + (index + (pairs + rest)))));
    }

    proof fn lemma_truncated(v: TypeAnnotationView, k: int) {
        let none = Seq::<u8>::empty();
        let info = wire_target_info(v.target_type, v.target_info)->Ok_0;
        let path = TypePath::wire(v.type_path)->Ok_0;
        let pairs = wire_pair_table(v.element_value_pairs)->Ok_0;
        let r4 = pairs + none;
        let r3 = bytes_u16(v.type_index) + r4;
        let r2 = path + r3;
        let r1 = info + r2;
        assert(Self::wire(v)->Ok_0 =~= seq![v.target_type] + r1);
        lemma_u8_prefix(v.target_type, r1, k);
        if k >= 1 {
            lemma_target_info_prefix(v.target_type, v.target_info, r2, k - 1);
            if k - 1 >= info.len() {
                let k2 = k - 1 - info.len();
                lemma_prefix::<TypePath>(v.type_path, r3, k2);
                if k2 >= path.len() {
                    let k3 = k2 - path.len();
                    lemma_u16_prefix(v.type_index, r4, k3);
                    if k3 >= 2 {
                        lemma_pair_table_prefix(v.element_value_pairs, none, k3 - 2);
                    }
                }
            }
        }
    }
}

} // verus!
