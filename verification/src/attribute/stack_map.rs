//! Stack-map frames: what the verifier expects of the locals and the operand
//! stack at a bytecode offset.

use vstd::prelude::*;
use bytes::BytesMut;
use crate::codec::{
    join, lemma_prefix, lemma_seq_exact, lemma_seq_prefix, lemma_seq_round_trip,
    lemma_table16_exact, lemma_table16_prefix, lemma_table16_round_trip, parse_seq,
    parse_table16, read_seq, read_table16, wire_seq, wire_table16, write_seq, write_table16,
    Wire,
};
use crate::error::Error;
use crate::error::ErrorView;
use crate::wire::{
    bytes_u16, group_wire_round_trip, lemma_u16_exact, lemma_u16_prefix, lemma_u8_exact,
    lemma_u8_prefix, parse_u16, parse_u8, push_u16, push_u8, read_u16, read_u8, settle, Parsed, Wired,
};

verus! {

/// The type of one local or one operand-stack entry, as the verifier sees it.
#[derive(Debug, Clone, Copy, PartialEq, Eq)]
pub enum VerificationTypeInfo {
    Top,
    Integer,
    Float,
    Long,
    Double,
    Null,
    UninitializedThis,
    Object { cpool_index: u16 },
    Uninitialized { offset: u16 },
}

impl DeepView for VerificationTypeInfo {
    type V = VerificationTypeInfo;

    open spec fn deep_view(&self) -> VerificationTypeInfo {
        *self
    }
}

impl VerificationTypeInfo {
    /// The tag byte that stands for the type on the wire.
    pub open spec fn tag(self) -> u8 {
        match self {
            VerificationTypeInfo::Top => 0,
            VerificationTypeInfo::Integer => 1,
            VerificationTypeInfo::Float => 2,
            VerificationTypeInfo::Double => 3,
            VerificationTypeInfo::Long => 4,
            VerificationTypeInfo::Null => 5,
            VerificationTypeInfo::UninitializedThis => 6,
            VerificationTypeInfo::Object { .. } => 7,
            VerificationTypeInfo::Uninitialized { .. } => 8,
        }
    }
}

impl Wire for VerificationTypeInfo {
    open spec fn parse(s: Seq<u8>) -> Parsed<VerificationTypeInfo> {
        match parse_u8(s) {
            Err(e) => Err(e),
            Ok((tag, s1)) => if tag == 0 {
                Ok((VerificationTypeInfo::Top, s1))
            } else if tag == 1 {
                Ok((VerificationTypeInfo::Integer, s1))
            } else if tag == 2 {
                Ok((VerificationTypeInfo::Float, s1))
            } else if tag == 3 {
                Ok((VerificationTypeInfo::Double, s1))
            } else if tag == 4 {
                Ok((VerificationTypeInfo::Long, s1))
            } else if tag == 5 {
                Ok((VerificationTypeInfo::Null, s1))
            } else if tag == 6 {
                Ok((VerificationTypeInfo::UninitializedThis, s1))
            } else if tag == 7 {
                match parse_u16(s1) {
                    Err(e) => Err(e),
                    Ok((cpool_index, s2)) => Ok((VerificationTypeInfo::Object { cpool_index }, s2)),
                }
            } else if tag == 8 {
                match parse_u16(s1) {
                    Err(e) => Err(e),
                    Ok((offset, s2)) => Ok((VerificationTypeInfo::Uninitialized { offset }, s2)),
                }
            } else {
                Err(ErrorView::InvalidVerificationTypeInfo)
            },
        }
    }

    open spec fn wire(v: VerificationTypeInfo) -> Wired {
        match v {
            VerificationTypeInfo::Object { cpool_index } => Ok(seq![7u8] + bytes_u16(cpool_index)),
            VerificationTypeInfo::Uninitialized { offset } => Ok(seq![8u8] + bytes_u16(offset)),
            _ => Ok(seq![v.tag()]),
        }
    }

    fn decode(buf: &mut BytesMut) -> (r: Result<VerificationTypeInfo, Error>) {
        let tag = read_u8(buf)?;
        match tag {
            0 => Ok(VerificationTypeInfo::Top),
            1 => Ok(VerificationTypeInfo::Integer),
            2 => Ok(VerificationTypeInfo::Float),
            3 => Ok(VerificationTypeInfo::Double),
            4 => Ok(VerificationTypeInfo::Long),
            5 => Ok(VerificationTypeInfo::Null),
            6 => Ok(VerificationTypeInfo::UninitializedThis),
            7 => {
                let cpool_index = read_u16(buf)?;
                Ok(VerificationTypeInfo::Object { cpool_index })
            },
            8 => {
                let offset = read_u16(buf)?;
                Ok(VerificationTypeInfo::Uninitialized { offset })
            },
            _ => Err(Error::InvalidVerificationTypeInfo),
        }
    }

    fn write(&self, out: &mut Vec<u8>) -> (r: Result<usize, Error>) {
        match self {
            VerificationTypeInfo::Top => {
                push_u8(out, 0);
                Ok(1)
            },
            VerificationTypeInfo::Integer => {
                push_u8(out, 1);
                Ok(1)
            },
            VerificationTypeInfo::Float => {
                push_u8(out, 2);
                Ok(1)
            },
            VerificationTypeInfo::Double => {
                push_u8(out, 3);
                Ok(1)
            },
            VerificationTypeInfo::Long => {
                push_u8(out, 4);
                Ok(1)
            },
            VerificationTypeInfo::Null => {
                push_u8(out, 5);
                Ok(1)
            },
            VerificationTypeInfo::UninitializedThis => {
                push_u8(out, 6);
                Ok(1)
            },
            VerificationTypeInfo::Object { cpool_index } => {
                push_u8(out, 7);
                push_u16(out, *cpool_index);
                proof {
                    assert(out@ =~= old(out)@ + (seq![7u8] + bytes_u16(*cpool_index)));
                }
                Ok(3)
            },
            VerificationTypeInfo::Uninitialized { offset } => {
                push_u8(out, 8);
                push_u16(out, *offset);
                proof {
                    assert(out@ =~= old(out)@ + (seq![8u8] + bytes_u16(*offset)));
                }
                Ok(3)
            },
        }
    }

    fn encode(&self, out: &mut Vec<u8>) -> (r: Result<usize, Error>) {
        let start = out.len();
        let r = self.write(out);
        settle(out, start, r)
    }

    proof fn lemma_round_trip(v: VerificationTypeInfo, tail: Seq<u8>) {
        broadcast use group_wire_round_trip;

    }

    proof fn lemma_exact(s: Seq<u8>) {
        lemma_u8_exact(s);
        let tag = parse_u8(s)->Ok_0.0;
        let s1 = parse_u8(s)->Ok_0.1;
        if tag == 7 || tag == 8 {
            lemma_u16_exact(s1);
            let index = bytes_u16(parse_u16(s1)->Ok_0.0);
            let rest = parse_u16(s1)->Ok_0.1;
            assert((seq![tag] + index) + rest =~= seq![tag] + (index + rest));
        }
    }

    proof fn lemma_truncated(v: VerificationTypeInfo, k: int) {
        let none = Seq::<u8>::empty();
        match v {
            VerificationTypeInfo::Object { cpool_index } => {
                assert(Self::wire(v)->Ok_0 =~= seq![7u8] + (bytes_u16(cpool_index) + none));
                lemma_u8_prefix(7u8, bytes_u16(cpool_index) + none, k);
                if k >= 1 {
                    lemma_u16_prefix(cpool_index, none, k - 1);
                }
            },
            VerificationTypeInfo::Uninitialized { offset } => {
                assert(Self::wire(v)->Ok_0 =~= seq![8u8] + (bytes_u16(offset) + none));
                lemma_u8_prefix(8u8, bytes_u16(offset) + none, k);
                if k >= 1 {
                    lemma_u16_prefix(offset, none, k - 1);
                }
            },
            _ => {},
        }
    }
}

/// The shape of a stack-map frame.
#[allow(inconsistent_fields)]
#[derive(Debug, Clone, PartialEq, Eq)]
pub enum StackMapFrame {
    SameFrame,
    SameLocals1StackItemFrame { stack: VerificationTypeInfo },
    SameLocals1StackItemFrameExtended { offset_delta: u16, stack: VerificationTypeInfo },
    ChopFrame { offset_delta: u16 },
    SameFrameExtended { offset_delta: u16 },
    AppendFrame { offset_delta: u16, locals: Vec<VerificationTypeInfo> },
    FullFrame {
        offset_delta: u16,
        locals: Vec<VerificationTypeInfo>,
        stack: Vec<VerificationTypeInfo>,
    },
}

/// The model of a [`StackMapFrame`].
#[allow(inconsistent_fields)]
pub enum StackMapFrameView {
    SameFrame,
    SameLocals1StackItemFrame { stack: VerificationTypeInfo },
    SameLocals1StackItemFrameExtended { offset_delta: u16, stack: VerificationTypeInfo },
    ChopFrame { offset_delta: u16 },
    SameFrameExtended { offset_delta: u16 },
    AppendFrame { offset_delta: u16, locals: Seq<VerificationTypeInfo> },
    FullFrame {
        offset_delta: u16,
        locals: Seq<VerificationTypeInfo>,
        stack: Seq<VerificationTypeInfo>,
    },
}

impl DeepView for StackMapFrame {
    type V = StackMapFrameView;

    open spec fn deep_view(&self) -> StackMapFrameView {
        match *self {
            StackMapFrame::SameFrame => StackMapFrameView::SameFrame,
            StackMapFrame::SameLocals1StackItemFrame {
                stack,
            } => StackMapFrameView::SameLocals1StackItemFrame { stack },
            StackMapFrame::SameLocals1StackItemFrameExtended {
                offset_delta,
                stack,
            } => StackMapFrameView::SameLocals1StackItemFrameExtended { offset_delta, stack },
            StackMapFrame::ChopFrame { offset_delta } => StackMapFrameView::ChopFrame {
                offset_delta,
            },
            StackMapFrame::SameFrameExtended {
                offset_delta,
            } => StackMapFrameView::SameFrameExtended { offset_delta },
            StackMapFrame::AppendFrame { offset_delta, locals } => StackMapFrameView::AppendFrame {
                offset_delta,
                locals: locals.deep_view(),
            },
            StackMapFrame::FullFrame { offset_delta, locals, stack } => StackMapFrameView::FullFrame {
                offset_delta,
                locals: locals.deep_view(),
                stack: stack.deep_view(),
            },
        }
    }
}

/// One entry of the `StackMapTable` attribute: the frame type byte and the
/// frame that follows it.
#[derive(Debug, Clone, PartialEq, Eq)]
pub struct StackMap {
    pub frame_type: u8,
    pub frame: StackMapFrame,
}

/// The model of a [`StackMap`].
pub struct StackMapView {
    pub frame_type: u8,
    pub frame: StackMapFrameView,
}

impl DeepView for StackMap {
    type V = StackMapView;

    open spec fn deep_view(&self) -> StackMapView {
        StackMapView { frame_type: self.frame_type, frame: self.frame.deep_view() }
    }
}

/// The frame that follows the frame type byte `frame_type`.
pub open spec fn parse_frame(frame_type: u8, s: Seq<u8>) -> Parsed<StackMapFrameView> {
    if frame_type <= 63 {
        Ok((StackMapFrameView::SameFrame, s))
    } else if frame_type <= 127 {
        match VerificationTypeInfo::parse(s) {
            Err(e) => Err(e),
            Ok((stack, rest)) => Ok((StackMapFrameView::SameLocals1StackItemFrame { stack }, rest)),
        }
    } else if frame_type < 247 {
        Err(ErrorView::InvalidFrameType)
    } else {
        match parse_u16(s) {
            Err(e) => Err(e),
            Ok((offset_delta, s1)) => if frame_type == 247 {
                match VerificationTypeInfo::parse(s1) {
                    Err(e) => Err(e),
                    Ok((stack, rest)) => Ok(
                        (
                            StackMapFrameView::SameLocals1StackItemFrameExtended {
                                offset_delta,
                                stack,
                            },
                            rest,
                        ),
                    ),
                }
            } else if frame_type <= 250 {
                Ok((StackMapFrameView::ChopFrame { offset_delta }, s1))
            } else if frame_type == 251 {
                Ok((StackMapFrameView::SameFrameExtended { offset_delta }, s1))
            } else if frame_type <= 254 {
                match parse_seq::<VerificationTypeInfo>(s1, (frame_type - 251) as nat) {
                    Err(e) => Err(e),
                    Ok((locals, rest)) => Ok(
                        (StackMapFrameView::AppendFrame { offset_delta, locals }, rest),
                    ),
                }
            } else {
                match parse_table16::<VerificationTypeInfo>(s1) {
                    Err(e) => Err(e),
                    Ok((locals, s2)) => match parse_table16::<VerificationTypeInfo>(s2) {
                        Err(e) => Err(e),
                        Ok((stack, rest)) => Ok(
                            (StackMapFrameView::FullFrame { offset_delta, locals, stack }, rest),
                        ),
                    },
                }
            },
        }
    }
}

/// The bytes of a frame after the frame type byte `frame_type`. Frame types
/// 128 to 246 are not assigned, and a frame of another shape than the frame
/// type implies has no bytes.
pub open spec fn wire_frame(frame_type: u8, frame: StackMapFrameView) -> Wired {
    if 128 <= frame_type < 247 {
        Err(ErrorView::InvalidFrameType)
    } else {
        match frame {
            StackMapFrameView::SameFrame => if frame_type <= 63 {
                Ok(Seq::empty())
            } else {
                Err(ErrorView::MismatchFrameType(frame_type))
            },
            StackMapFrameView::SameLocals1StackItemFrame { stack } => if 64 <= frame_type <= 127 {
                VerificationTypeInfo::wire(stack)
            } else {
                Err(ErrorView::MismatchFrameType(frame_type))
            },
            StackMapFrameView::SameLocals1StackItemFrameExtended { offset_delta, stack } => if frame_type
                == 247 {
                join(Ok(bytes_u16(offset_delta)), VerificationTypeInfo::wire(stack))
            } else {
                Err(ErrorView::MismatchFrameType(frame_type))
            },
            StackMapFrameView::ChopFrame { offset_delta } => if 248 <= frame_type <= 250 {
                Ok(bytes_u16(offset_delta))
            } else {
                Err(ErrorView::MismatchFrameType(frame_type))
            },
            StackMapFrameView::SameFrameExtended { offset_delta } => if frame_type == 251 {
                Ok(bytes_u16(offset_delta))
            } else {
                Err(ErrorView::MismatchFrameType(frame_type))
            },
            StackMapFrameView::AppendFrame { offset_delta, locals } => if 252 <= frame_type <= 254
                && locals.len() == frame_type - 251 {
                join(Ok(bytes_u16(offset_delta)), wire_seq::<VerificationTypeInfo>(locals))
            } else {
                Err(ErrorView::MismatchFrameType(frame_type))
            },
            StackMapFrameView::FullFrame { offset_delta, locals, stack } => if frame_type == 255 {
                join(
                    Ok(bytes_u16(offset_delta)),
                    join(
                        wire_table16::<VerificationTypeInfo>(locals),
                        wire_table16::<VerificationTypeInfo>(stack),
                    ),
                )
            } else {
                Err(ErrorView::MismatchFrameType(frame_type))
            },
        }
    }
}

/// A frame that was parsed behind its frame type byte is written back as the
/// bytes that it was parsed from.
proof fn lemma_frame_exact(frame_type: u8, s: Seq<u8>)
    requires
        parse_frame(frame_type, s) is Ok,
    ensures
        wire_frame(frame_type, parse_frame(frame_type, s)->Ok_0.0) is Ok,
        wire_frame(frame_type, parse_frame(frame_type, s)->Ok_0.0)->Ok_0 + parse_frame(
            frame_type,
            s,
        )->Ok_0.1 == s,
{
    let rest = parse_frame(frame_type, s)->Ok_0.1;
    if frame_type <= 63 {
        assert(Seq::<u8>::empty() + s =~= s);
    } else if frame_type <= 127 {
        VerificationTypeInfo::lemma_exact(s);
    } else {
        lemma_u16_exact(s);
        let delta = bytes_u16(parse_u16(s)->Ok_0.0);
        let s1 = parse_u16(s)->Ok_0.1;
        if frame_type == 247 {
            VerificationTypeInfo::lemma_exact(s1);
            let item = VerificationTypeInfo::wire(VerificationTypeInfo::parse(s1)->Ok_0.0)->Ok_0;
            assert((delta + item) + rest =~= delta + (item + rest));
        } else if frame_type <= 251 {
        } else if frame_type <= 254 {
            lemma_seq_exact::<VerificationTypeInfo>(s1, (frame_type - 251) as nat);
            let locals = parse_seq::<VerificationTypeInfo>(s1, (frame_type - 251) as nat)->Ok_0.0;
            let rows = wire_seq::<VerificationTypeInfo>(locals)->Ok_0;
            assert((delta + rows) + rest =~= delta + (rows + rest));
        } else {
            lemma_table16_exact::<VerificationTypeInfo>(s1);
            let locals = parse_table16::<VerificationTypeInfo>(s1)->Ok_0.0;
            let s2 = parse_table16::<VerificationTypeInfo>(s1)->Ok_0.1;
            lemma_table16_exact::<VerificationTypeInfo>(s2);
            let stack = parse_table16::<VerificationTypeInfo>(s2)->Ok_0.0;
            let first = wire_table16::<VerificationTypeInfo>(locals)->Ok_0;
            let second = wire_table16::<VerificationTypeInfo>(stack)->Ok_0;
            assert((delta + (first + second)) + rest =~= delta + (first + (second + rest)));
        }
    }
}

impl Wire for StackMap {
    open spec fn parse(s: Seq<u8>) -> Parsed<StackMapView> {
        match parse_u8(s) {
            Err(e) => Err(e),
            Ok((frame_type, s1)) => match parse_frame(frame_type, s1) {
                Err(e) => Err(e),
                Ok((frame, rest)) => Ok((StackMapView { frame_type, frame }, rest)),
            },
        }
    }

    open spec fn wire(v: StackMapView) -> Wired {
        join(Ok(seq![v.frame_type]), wire_frame(v.frame_type, v.frame))
    }

    fn decode(buf: &mut BytesMut) -> (r: Result<StackMap, Error>) {
        let frame_type = read_u8(buf)?;
        let frame = if frame_type <= 63 {
            StackMapFrame::SameFrame
        } else if frame_type <= 127 {
            let stack = VerificationTypeInfo::decode(buf)?;
            StackMapFrame::SameLocals1StackItemFrame { stack }
        } else if frame_type < 247 {
            return Err(Error::InvalidFrameType);
        } else {
            let offset_delta = read_u16(buf)?;
            if frame_type == 247 {
                let stack = VerificationTypeInfo::decode(buf)?;
                StackMapFrame::SameLocals1StackItemFrameExtended { offset_delta, stack }
            } else if frame_type <= 250 {
                StackMapFrame::ChopFrame { offset_delta }
            } else if frame_type == 251 {
                StackMapFrame::SameFrameExtended { offset_delta }
            } else if frame_type <= 254 {
                let locals = read_seq::<VerificationTypeInfo>(buf, (frame_type - 251) as usize)?;
                StackMapFrame::AppendFrame { offset_delta, locals }
            } else {
                let locals = read_table16::<VerificationTypeInfo>(buf)?;
                let stack = read_table16::<VerificationTypeInfo>(buf)?;
                StackMapFrame::FullFrame { offset_delta, locals, stack }
            }
        };
        Ok(StackMap { frame_type, frame })
    }

    fn write(&self, out: &mut Vec<u8>) -> (r: Result<usize, Error>) {
        let start = out.len();
        let frame_type = self.frame_type;
        if 128 <= frame_type && frame_type < 247 {
            return Err(Error::InvalidFrameType);
        }
        push_u8(out, frame_type);
        let ghost body: Seq<u8>;
        match &self.frame {
            StackMapFrame::SameFrame => {
                if frame_type > 63 {
                    return Err(Error::MismatchFrameType(frame_type));
                }
                proof {
                    body = Seq::empty();
                }
            },
            StackMapFrame::SameLocals1StackItemFrame { stack } => {
                if frame_type < 64 || frame_type > 127 {
                    return Err(Error::MismatchFrameType(frame_type));
                }
                stack.write(out)?;
                proof {
                    body = VerificationTypeInfo::wire(*stack)->Ok_0;
                }
            },
            StackMapFrame::SameLocals1StackItemFrameExtended { offset_delta, stack } => {
                if frame_type != 247 {
                    return Err(Error::MismatchFrameType(frame_type));
                }
                push_u16(out, *offset_delta);
                stack.write(out)?;
                proof {
                    body = bytes_u16(*offset_delta) + VerificationTypeInfo::wire(*stack)->Ok_0;
                }
            },
            StackMapFrame::ChopFrame { offset_delta } => {
                if frame_type < 248 || frame_type > 250 {
                    return Err(Error::MismatchFrameType(frame_type));
                }
                push_u16(out, *offset_delta);
                proof {
                    body = bytes_u16(*offset_delta);
                }
            },
            StackMapFrame::SameFrameExtended { offset_delta } => {
                if frame_type != 251 {
                    return Err(Error::MismatchFrameType(frame_type));
                }
                push_u16(out, *offset_delta);
                proof {
                    body = bytes_u16(*offset_delta);
                }
            },
            StackMapFrame::AppendFrame { offset_delta, locals } => {
                if frame_type < 252 || frame_type > 254 || locals.len() != (frame_type - 251) as usize {
                    return Err(Error::MismatchFrameType(frame_type));
                }
                push_u16(out, *offset_delta);
                write_seq::<VerificationTypeInfo>(locals, out)?;
                proof {
                    body = bytes_u16(*offset_delta) + wire_seq::<VerificationTypeInfo>(
                        locals.deep_view(),
                    )->Ok_0;
                }
            },
            StackMapFrame::FullFrame { offset_delta, locals, stack } => {
                if frame_type != 255 {
                    return Err(Error::MismatchFrameType(frame_type));
                }
                push_u16(out, *offset_delta);
                write_table16::<VerificationTypeInfo>(locals, out)?;
                write_table16::<VerificationTypeInfo>(stack, out)?;
                proof {
                    body = bytes_u16(*offset_delta) + (wire_table16::<VerificationTypeInfo>(
                        locals.deep_view(),
                    )->Ok_0 + wire_table16::<VerificationTypeInfo>(stack.deep_view())->Ok_0);
                }
            },
        }
        proof {
            assert(wire_frame(frame_type, self.frame.deep_view()) == Ok::<Seq<u8>, ErrorView>(body));
            assert(out@ =~= old(out)@ + (seq![frame_type] + body));
        }
        Ok(out.len() - start)
    }

    fn encode(&self, out: &mut Vec<u8>) -> (r: Result<usize, Error>) {
        let start = out.len();
        let r = self.write(out);
        settle(out, start, r)
    }

    proof fn lemma_round_trip(v: StackMapView, tail: Seq<u8>) {
        broadcast use group_wire_round_trip;

        let body = wire_frame(v.frame_type, v.frame)->Ok_0;
        assert(parse_u8(seq![v.frame_type] + (body + tail)) == Ok::<(u8, Seq<u8>), ErrorView>(
            (v.frame_type, body + tail),
        ));
        match v.frame {
            StackMapFrameView::SameFrame => {
                assert(body + tail =~= tail);
            },
            StackMapFrameView::SameLocals1StackItemFrame { stack } => {
                VerificationTypeInfo::lemma_round_trip(stack, tail);
            },
            StackMapFrameView::SameLocals1StackItemFrameExtended { offset_delta, stack } => {
                VerificationTypeInfo::lemma_round_trip(stack, tail);
            },
            StackMapFrameView::ChopFrame { offset_delta } => {},
            StackMapFrameView::SameFrameExtended { offset_delta } => {},
            StackMapFrameView::AppendFrame { offset_delta, locals } => {
                lemma_seq_round_trip::<VerificationTypeInfo>(locals, tail);
            },
            StackMapFrameView::FullFrame { offset_delta, locals, stack } => {
                let second = wire_table16::<VerificationTypeInfo>(stack)->Ok_0;
                lemma_table16_round_trip::<VerificationTypeInfo>(locals, second + tail);
                lemma_table16_round_trip::<VerificationTypeInfo>(stack, tail);
            },
        }
    }

    proof fn lemma_exact(s: Seq<u8>) {
        lemma_u8_exact(s);
        let frame_type = parse_u8(s)->Ok_0.0;
        let s1 = parse_u8(s)->Ok_0.1;
        lemma_frame_exact(frame_type, s1);
        let frame = parse_frame(frame_type, s1)->Ok_0.0;
        let rest = parse_frame(frame_type, s1)->Ok_0.1;
        let body = wire_frame(frame_type, frame)->Ok_0;
        assert((seq![frame_type] + body) + rest =~= seq![frame_type] + (body + rest));
    }

    proof fn lemma_truncated(v: StackMapView, k: int) {
        let body = wire_frame(v.frame_type, v.frame)->Ok_0;
        let none = Seq::<u8>::empty();
        lemma_u8_prefix(v.frame_type, body, k);
        if k >= 1 {
            let j = k - 1;
            match v.frame {
                StackMapFrameView::SameFrame => {},
                StackMapFrameView::SameLocals1StackItemFrame { stack } => {
                    assert(body =~= body + none);
                    lemma_prefix::<VerificationTypeInfo>(stack, none, j);
                },
                StackMapFrameView::SameLocals1StackItemFrameExtended { offset_delta, stack } => {
                    let item = VerificationTypeInfo::wire(stack)->Ok_0;
                    assert(body =~= bytes_u16(offset_delta) + (item + none));
                    lemma_u16_prefix(offset_delta, item + none, j);
                    if j >= 2 {
                        lemma_prefix::<VerificationTypeInfo>(stack, none, j - 2);
                    }
                },
                StackMapFrameView::ChopFrame { offset_delta } => {
                    assert(body =~= bytes_u16(offset_delta) + none);
                    lemma_u16_prefix(offset_delta, none, j);
                },
                StackMapFrameView::SameFrameExtended { offset_delta } => {
                    assert(body =~= bytes_u16(offset_delta) + none);
                    lemma_u16_prefix(offset_delta, none, j);
                },
                StackMapFrameView::AppendFrame { offset_delta, locals } => {
                    let rows = wire_seq::<VerificationTypeInfo>(locals)->Ok_0;
                    assert(body =~= bytes_u16(offset_delta) + (rows + none));
                    lemma_u16_prefix(offset_delta, rows + none, j);
                    if j >= 2 {
                        lemma_seq_prefix::<VerificationTypeInfo>(locals, none, j - 2);
                    }
                },
                StackMapFrameView::FullFrame { offset_delta, locals, stack } => {
                    let first = wire_table16::<VerificationTypeInfo>(locals)->Ok_0;
                    let second = wire_table16::<VerificationTypeInfo>(stack)->Ok_0;
                    assert(body =~= bytes_u16(offset_delta) + (first + (second + none)));
                    lemma_u16_prefix(offset_delta, first + (second + none), j);
                    if j >= 2 {
                        lemma_table16_prefix::<VerificationTypeInfo>(locals, second + none, j - 2);
                        if j - 2 >= first.len() {
                            lemma_table16_prefix::<VerificationTypeInfo>(
                                stack,
                                none,
                                j - 2 - first.len(),
                            );
                        }
                    }
                },
            }
        }
    }
}

} // verus!
