//! The records of the attribute tables. All but the bootstrap method are a
//! fixed run of big-endian 16-bit fields.

use vstd::prelude::*;
use bytes::BytesMut;
use crate::codec::{
    join, lemma_table16_exact, lemma_table16_prefix, lemma_table16_round_trip, parse_table16,
    read_table16, wire_table16, write_table16, Wire,
};
use crate::error::Error;
use crate::error::ErrorView;
use crate::wire::{
    bytes_u16, group_wire_round_trip, lemma_u16_exact, lemma_u16_prefix, parse_u16, push_u16,
    read_u16, settle, Parsed, Wired,
};

verus! {

/// One row of a code attribute's exception table: the range of program
/// counters it guards, the handler's start, and the pool index of the class
/// caught (0 catches everything).
#[derive(Debug, Clone, Copy, PartialEq, Eq)]
pub struct Exception {
    pub start_pc: u16,
    pub end_pc: u16,
    pub handler_pc: u16,
    pub catch_type: u16,
}

impl DeepView for Exception {
    type V = Exception;

    open spec fn deep_view(&self) -> Exception {
        *self
    }
}

impl Wire for Exception {
    open spec fn parse(s: Seq<u8>) -> Parsed<Exception> {
        match parse_u16(s) {
            Err(e) => Err(e),
            Ok((start_pc, s1)) => match parse_u16(s1) {
                Err(e) => Err(e),
                Ok((end_pc, s2)) => match parse_u16(s2) {
                    Err(e) => Err(e),
                    Ok((handler_pc, s3)) => match parse_u16(s3) {
                        Err(e) => Err(e),
                        Ok((catch_type, s4)) =>
                            Ok((Exception { start_pc, end_pc, handler_pc, catch_type }, s4)),
                    },
                },
            },
        }
    }

    open spec fn wire(v: Exception) -> Wired {
        Ok(bytes_u16(v.start_pc) + bytes_u16(v.end_pc) + bytes_u16(v.handler_pc)
            + bytes_u16(v.catch_type))
    }

    fn decode(buf: &mut BytesMut) -> (r: Result<Exception, Error>) {
        let start_pc = read_u16(buf)?;
        let end_pc = read_u16(buf)?;
        let handler_pc = read_u16(buf)?;
        let catch_type = read_u16(buf)?;
        Ok(Exception { start_pc, end_pc, handler_pc, catch_type })
    }

    fn write(&self, out: &mut Vec<u8>) -> (r: Result<usize, Error>) {
        push_u16(out, self.start_pc);
        push_u16(out, self.end_pc);
        push_u16(out, self.handler_pc);
        push_u16(out, self.catch_type);
        proof {
            assert(out@ =~= old(out)@ + (bytes_u16(self.start_pc) + bytes_u16(self.end_pc)
                + bytes_u16(self.handler_pc) + bytes_u16(self.catch_type)));
        }
        Ok(8)
    }

    fn encode(&self, out: &mut Vec<u8>) -> (r: Result<usize, Error>) {
        let start = out.len();
        let r = self.write(out);
        settle(out, start, r)
    }

    proof fn lemma_round_trip(v: Exception, tail: Seq<u8>) {
        broadcast use group_wire_round_trip;

    }

    proof fn lemma_exact(s: Seq<u8>) {
        let s0 = s;
        lemma_u16_exact(s0);
        let s1 = parse_u16(s0)->Ok_0.1;
        lemma_u16_exact(s1);
        let s2 = parse_u16(s1)->Ok_0.1;
        lemma_u16_exact(s2);
        let s3 = parse_u16(s2)->Ok_0.1;
        lemma_u16_exact(s3);
        let s4 = parse_u16(s3)->Ok_0.1;
        let v = Self::parse(s)->Ok_0.0;
        assert(Self::wire(v)->Ok_0 + s4 =~= s);
    }

    proof fn lemma_truncated(v: Exception, k: int) {
        let r4 = Seq::<u8>::empty();
        let r3 = bytes_u16(v.catch_type) + r4;
        let r2 = bytes_u16(v.handler_pc) + r3;
        let r1 = bytes_u16(v.end_pc) + r2;
        assert(Self::wire(v)->Ok_0 =~= bytes_u16(v.start_pc) + r1);
        lemma_u16_prefix(v.start_pc, r1, k);
        if k >= 2 {
            lemma_u16_prefix(v.end_pc, r2, k - 2);
            if k >= 4 {
                lemma_u16_prefix(v.handler_pc, r3, k - 4);
                if k >= 6 {
                    lemma_u16_prefix(v.catch_type, r4, k - 6);
                }
            }
        }
    }
}

/// One row of the `InnerClasses` attribute.
#[derive(Debug, Clone, Copy, PartialEq, Eq)]
pub struct InnerClass {
    pub inner_class_info_index: u16,
    pub outer_class_info_index: u16,
    pub inner_name_index: u16,
    pub inner_class_access_flags: u16,
}

impl DeepView for InnerClass {
    type V = InnerClass;

    open spec fn deep_view(&self) -> InnerClass {
        *self
    }
}

impl Wire for InnerClass {
    open spec fn parse(s: Seq<u8>) -> Parsed<InnerClass> {
        match parse_u16(s) {
            Err(e) => Err(e),
            Ok((inner_class_info_index, s1)) => match parse_u16(s1) {
                Err(e) => Err(e),
                Ok((outer_class_info_index, s2)) => match parse_u16(s2) {
                    Err(e) => Err(e),
                    Ok((inner_name_index, s3)) => match parse_u16(s3) {
                        Err(e) => Err(e),
                        Ok((inner_class_access_flags, s4)) =>
                            Ok((InnerClass { inner_class_info_index, outer_class_info_index, inner_name_index, inner_class_access_flags }, s4)),
                    },
                },
            },
        }
    }

    open spec fn wire(v: InnerClass) -> Wired {
        Ok(bytes_u16(v.inner_class_info_index) + bytes_u16(v.outer_class_info_index)
            + bytes_u16(v.inner_name_index) + bytes_u16(v.inner_class_access_flags))
    }

    fn decode(buf: &mut BytesMut) -> (r: Result<InnerClass, Error>) {
        let inner_class_info_index = read_u16(buf)?;
        let outer_class_info_index = read_u16(buf)?;
        let inner_name_index = read_u16(buf)?;
        let inner_class_access_flags = read_u16(buf)?;
        Ok(InnerClass { inner_class_info_index, outer_class_info_index, inner_name_index, inner_class_access_flags })
    }

    fn write(&self, out: &mut Vec<u8>) -> (r: Result<usize, Error>) {
        push_u16(out, self.inner_class_info_index);
        push_u16(out, self.outer_class_info_index);
        push_u16(out, self.inner_name_index);
        push_u16(out, self.inner_class_access_flags);
        proof {
            assert(out@ =~= old(out)@ + (bytes_u16(self.inner_class_info_index)
                + bytes_u16(self.outer_class_info_index) + bytes_u16(self.inner_name_index)
                + bytes_u16(self.inner_class_access_flags)));
        }
        Ok(8)
    }

    fn encode(&self, out: &mut Vec<u8>) -> (r: Result<usize, Error>) {
        let start = out.len();
        let r = self.write(out);
        settle(out, start, r)
    }

    proof fn lemma_round_trip(v: InnerClass, tail: Seq<u8>) {
        broadcast use group_wire_round_trip;

    }

    proof fn lemma_exact(s: Seq<u8>) {
        let s0 = s;
        lemma_u16_exact(s0);
        let s1 = parse_u16(s0)->Ok_0.1;
        lemma_u16_exact(s1);
        let s2 = parse_u16(s1)->Ok_0.1;
        lemma_u16_exact(s2);
        let s3 = parse_u16(s2)->Ok_0.1;
        lemma_u16_exact(s3);
        let s4 = parse_u16(s3)->Ok_0.1;
        let v = Self::parse(s)->Ok_0.0;
        assert(Self::wire(v)->Ok_0 + s4 =~= s);
    }

    proof fn lemma_truncated(v: InnerClass, k: int) {
        let r4 = Seq::<u8>::empty();
        let r3 = bytes_u16(v.inner_class_access_flags) + r4;
        let r2 = bytes_u16(v.inner_name_index) + r3;
        let r1 = bytes_u16(v.outer_class_info_index) + r2;
        assert(Self::wire(v)->Ok_0 =~= bytes_u16(v.inner_class_info_index) + r1);
        lemma_u16_prefix(v.inner_class_info_index, r1, k);
        if k >= 2 {
            lemma_u16_prefix(v.outer_class_info_index, r2, k - 2);
            if k >= 4 {
                lemma_u16_prefix(v.inner_name_index, r3, k - 4);
                if k >= 6 {
                    lemma_u16_prefix(v.inner_class_access_flags, r4, k - 6);
                }
            }
        }
    }
}

/// One row of the `LineNumberTable` attribute.
#[derive(Debug, Clone, Copy, PartialEq, Eq)]
pub struct LineNumber {
    pub start_pc: u16,
    pub line_number: u16,
}

impl DeepView for LineNumber {
    type V = LineNumber;

    open spec fn deep_view(&self) -> LineNumber {
        *self
    }
}

impl Wire for LineNumber {
    open spec fn parse(s: Seq<u8>) -> Parsed<LineNumber> {
        match parse_u16(s) {
            Err(e) => Err(e),
            Ok((start_pc, s1)) => match parse_u16(s1) {
                Err(e) => Err(e),
                Ok((line_number, s2)) => Ok((LineNumber { start_pc, line_number }, s2)),
            },
        }
    }

    open spec fn wire(v: LineNumber) -> Wired {
        Ok(bytes_u16(v.start_pc) + bytes_u16(v.line_number))
    }

    fn decode(buf: &mut BytesMut) -> (r: Result<LineNumber, Error>) {
        let start_pc = read_u16(buf)?;
        let line_number = read_u16(buf)?;
        Ok(LineNumber { start_pc, line_number })
    }

    fn write(&self, out: &mut Vec<u8>) -> (r: Result<usize, Error>) {
        push_u16(out, self.start_pc);
        push_u16(out, self.line_number);
        proof {
            assert(out@ =~= old(out)@ + (bytes_u16(self.start_pc) + bytes_u16(self.line_number)));
        }
        Ok(4)
    }

    fn encode(&self, out: &mut Vec<u8>) -> (r: Result<usize, Error>) {
        let start = out.len();
        let r = self.write(out);
        settle(out, start, r)
    }

    proof fn lemma_round_trip(v: LineNumber, tail: Seq<u8>) {
        broadcast use group_wire_round_trip;

    }

    proof fn lemma_exact(s: Seq<u8>) {
        let s0 = s;
        lemma_u16_exact(s0);
        let s1 = parse_u16(s0)->Ok_0.1;
        lemma_u16_exact(s1);
        let s2 = parse_u16(s1)->Ok_0.1;
        let v = Self::parse(s)->Ok_0.0;
        assert(Self::wire(v)->Ok_0 + s2 =~= s);
    }

    proof fn lemma_truncated(v: LineNumber, k: int) {
        let r2 = Seq::<u8>::empty();
        let r1 = bytes_u16(v.line_number) + r2;
        assert(Self::wire(v)->Ok_0 =~= bytes_u16(v.start_pc) + r1);
        lemma_u16_prefix(v.start_pc, r1, k);
        if k >= 2 {
            lemma_u16_prefix(v.line_number, r2, k - 2);
        }
    }
}

/// One row of the `LocalVariableTable` attribute.
#[derive(Debug, Clone, Copy, PartialEq, Eq)]
pub struct LocalVariable {
    pub start_pc: u16,
    pub length: u16,
    pub name_index: u16,
    pub descriptor_index: u16,
    pub index: u16,
}

impl DeepView for LocalVariable {
    type V = LocalVariable;

    open spec fn deep_view(&self) -> LocalVariable {
        *self
    }
}

impl Wire for LocalVariable {
    open spec fn parse(s: Seq<u8>) -> Parsed<LocalVariable> {
        match parse_u16(s) {
            Err(e) => Err(e),
            Ok((start_pc, s1)) => match parse_u16(s1) {
                Err(e) => Err(e),
                Ok((length, s2)) => match parse_u16(s2) {
                    Err(e) => Err(e),
                    Ok((name_index, s3)) => match parse_u16(s3) {
                        Err(e) => Err(e),
                        Ok((descriptor_index, s4)) => match parse_u16(s4) {
                            Err(e) => Err(e),
                            Ok((index, s5)) =>
                                Ok((LocalVariable { start_pc, length, name_index, descriptor_index, index }, s5)),
                        },
                    },
                },
            },
        }
    }

    open spec fn wire(v: LocalVariable) -> Wired {
        Ok(bytes_u16(v.start_pc) + bytes_u16(v.length) + bytes_u16(v.name_index)
            + bytes_u16(v.descriptor_index) + bytes_u16(v.index))
    }

    fn decode(buf: &mut BytesMut) -> (r: Result<LocalVariable, Error>) {
        let start_pc = read_u16(buf)?;
        let length = read_u16(buf)?;
        let name_index = read_u16(buf)?;
        let descriptor_index = read_u16(buf)?;
        let index = read_u16(buf)?;
        Ok(LocalVariable { start_pc, length, name_index, descriptor_index, index })
    }

    fn write(&self, out: &mut Vec<u8>) -> (r: Result<usize, Error>) {
        push_u16(out, self.start_pc);
        push_u16(out, self.length);
        push_u16(out, self.name_index);
        push_u16(out, self.descriptor_index);
        push_u16(out, self.index);
        proof {
            assert(out@ =~= old(out)@ + (bytes_u16(self.start_pc) + bytes_u16(self.length)
                + bytes_u16(self.name_index) + bytes_u16(self.descriptor_index)
                + bytes_u16(self.index)));
        }
        Ok(10)
    }

    fn encode(&self, out: &mut Vec<u8>) -> (r: Result<usize, Error>) {
        let start = out.len();
        let r = self.write(out);
        settle(out, start, r)
    }

    proof fn lemma_round_trip(v: LocalVariable, tail: Seq<u8>) {
        broadcast use group_wire_round_trip;

    }

    proof fn lemma_exact(s: Seq<u8>) {
        let s0 = s;
        lemma_u16_exact(s0);
        let s1 = parse_u16(s0)->Ok_0.1;
        lemma_u16_exact(s1);
        let s2 = parse_u16(s1)->Ok_0.1;
        lemma_u16_exact(s2);
        let s3 = parse_u16(s2)->Ok_0.1;
        lemma_u16_exact(s3);
        let s4 = parse_u16(s3)->Ok_0.1;
        lemma_u16_exact(s4);
        let s5 = parse_u16(s4)->Ok_0.1;
        let v = Self::parse(s)->Ok_0.0;
        assert(Self::wire(v)->Ok_0 + s5 =~= s);
    }

    proof fn lemma_truncated(v: LocalVariable, k: int) {
        let r5 = Seq::<u8>::empty();
        let r4 = bytes_u16(v.index) + r5;
        let r3 = bytes_u16(v.descriptor_index) + r4;
        let r2 = bytes_u16(v.name_index) + r3;
        let r1 = bytes_u16(v.length) + r2;
        assert(Self::wire(v)->Ok_0 =~= bytes_u16(v.start_pc) + r1);
        lemma_u16_prefix(v.start_pc, r1, k);
        if k >= 2 {
            lemma_u16_prefix(v.length, r2, k - 2);
            if k >= 4 {
                lemma_u16_prefix(v.name_index, r3, k - 4);
                if k >= 6 {
                    lemma_u16_prefix(v.descriptor_index, r4, k - 6);
                    if k >= 8 {
                        lemma_u16_prefix(v.index, r5, k - 8);
                    }
                }
            }
        }
    }
}

/// One row of the `LocalVariableTypeTable` attribute.
#[derive(Debug, Clone, Copy, PartialEq, Eq)]
pub struct LocalVariableType {
    pub start_pc: u16,
    pub length: u16,
    pub name_index: u16,
    pub signature_index: u16,
    pub index: u16,
}

impl DeepView for LocalVariableType {
    type V = LocalVariableType;

    open spec fn deep_view(&self) -> LocalVariableType {
        *self
    }
}

impl Wire for LocalVariableType {
    open spec fn parse(s: Seq<u8>) -> Parsed<LocalVariableType> {
        match parse_u16(s) {
            Err(e) => Err(e),
            Ok((start_pc, s1)) => match parse_u16(s1) {
                Err(e) => Err(e),
                Ok((length, s2)) => match parse_u16(s2) {
                    Err(e) => Err(e),
                    Ok((name_index, s3)) => match parse_u16(s3) {
                        Err(e) => Err(e),
                        Ok((signature_index, s4)) => match parse_u16(s4) {
                            Err(e) => Err(e),
                            Ok((index, s5)) =>
                                Ok((LocalVariableType { start_pc, length, name_index, signature_index, index }, s5)),
                        },
                    },
                },
            },
        }
    }

    open spec fn wire(v: LocalVariableType) -> Wired {
        Ok(bytes_u16(v.start_pc) + bytes_u16(v.length) + bytes_u16(v.name_index)
            + bytes_u16(v.signature_index) + bytes_u16(v.index))
    }

    fn decode(buf: &mut BytesMut) -> (r: Result<LocalVariableType, Error>) {
        let start_pc = read_u16(buf)?;
        let length = read_u16(buf)?;
        let name_index = read_u16(buf)?;
        let signature_index = read_u16(buf)?;
        let index = read_u16(buf)?;
        Ok(LocalVariableType { start_pc, length, name_index, signature_index, index })
    }

    fn write(&self, out: &mut Vec<u8>) -> (r: Result<usize, Error>) {
        push_u16(out, self.start_pc);
        push_u16(out, self.length);
        push_u16(out, self.name_index);
        push_u16(out, self.signature_index);
        push_u16(out, self.index);
        proof {
            assert(out@ =~= old(out)@ + (bytes_u16(self.start_pc) + bytes_u16(self.length)
                + bytes_u16(self.name_index) + bytes_u16(self.signature_index)
                + bytes_u16(self.index)));
        }
        Ok(10)
    }

    fn encode(&self, out: &mut Vec<u8>) -> (r: Result<usize, Error>) {
        let start = out.len();
        let r = self.write(out);
        settle(out, start, r)
    }

    proof fn lemma_round_trip(v: LocalVariableType, tail: Seq<u8>) {
        broadcast use group_wire_round_trip;

    }

    proof fn lemma_exact(s: Seq<u8>) {
        let s0 = s;
        lemma_u16_exact(s0);
        let s1 = parse_u16(s0)->Ok_0.1;
        lemma_u16_exact(s1);
        let s2 = parse_u16(s1)->Ok_0.1;
        lemma_u16_exact(s2);
        let s3 = parse_u16(s2)->Ok_0.1;
        lemma_u16_exact(s3);
        let s4 = parse_u16(s3)->Ok_0.1;
        lemma_u16_exact(s4);
        let s5 = parse_u16(s4)->Ok_0.1;
        let v = Self::parse(s)->Ok_0.0;
        assert(Self::wire(v)->Ok_0 + s5 =~= s);
    }

    proof fn lemma_truncated(v: LocalVariableType, k: int) {
        let r5 = Seq::<u8>::empty();
        let r4 = bytes_u16(v.index) + r5;
        let r3 = bytes_u16(v.signature_index) + r4;
        let r2 = bytes_u16(v.name_index) + r3;
        let r1 = bytes_u16(v.length) + r2;
        assert(Self::wire(v)->Ok_0 =~= bytes_u16(v.start_pc) + r1);
        lemma_u16_prefix(v.start_pc, r1, k);
        if k >= 2 {
            lemma_u16_prefix(v.length, r2, k - 2);
            if k >= 4 {
                lemma_u16_prefix(v.name_index, r3, k - 4);
                if k >= 6 {
                    lemma_u16_prefix(v.signature_index, r4, k - 6);
                    if k >= 8 {
                        lemma_u16_prefix(v.index, r5, k - 8);
                    }
                }
            }
        }
    }
}

/// One row of a type annotation's local-variable target.
#[derive(Debug, Clone, Copy, PartialEq, Eq)]
pub struct LocalVar {
    pub start_pc: u16,
    pub length: u16,
    pub index: u16,
}

impl DeepView for LocalVar {
    type V = LocalVar;

    open spec fn deep_view(&self) -> LocalVar {
        *self
    }
}

impl Wire for LocalVar {
    open spec fn parse(s: Seq<u8>) -> Parsed<LocalVar> {
        match parse_u16(s) {
            Err(e) => Err(e),
            Ok((start_pc, s1)) => match parse_u16(s1) {
                Err(e) => Err(e),
                Ok((length, s2)) => match parse_u16(s2) {
                    Err(e) => Err(e),
                    Ok((index, s3)) => Ok((LocalVar { start_pc, length, index }, s3)),
                },
            },
        }
    }

    open spec fn wire(v: LocalVar) -> Wired {
        Ok(bytes_u16(v.start_pc) + bytes_u16(v.length) + bytes_u16(v.index))
    }

    fn decode(buf: &mut BytesMut) -> (r: Result<LocalVar, Error>) {
        let start_pc = read_u16(buf)?;
        let length = read_u16(buf)?;
        let index = read_u16(buf)?;
        Ok(LocalVar { start_pc, length, index })
    }

    fn write(&self, out: &mut Vec<u8>) -> (r: Result<usize, Error>) {
        push_u16(out, self.start_pc);
        push_u16(out, self.length);
        push_u16(out, self.index);
        proof {
            assert(out@ =~= old(out)@ + (bytes_u16(self.start_pc) + bytes_u16(self.length)
                + bytes_u16(self.index)));
        }
        Ok(6)
    }

    fn encode(&self, out: &mut Vec<u8>) -> (r: Result<usize, Error>) {
        let start = out.len();
        let r = self.write(out);
        settle(out, start, r)
    }

    proof fn lemma_round_trip(v: LocalVar, tail: Seq<u8>) {
        broadcast use group_wire_round_trip;

    }

    proof fn lemma_exact(s: Seq<u8>) {
        let s0 = s;
        lemma_u16_exact(s0);
        let s1 = parse_u16(s0)->Ok_0.1;
        lemma_u16_exact(s1);
        let s2 = parse_u16(s1)->Ok_0.1;
        lemma_u16_exact(s2);
        let s3 = parse_u16(s2)->Ok_0.1;
        let v = Self::parse(s)->Ok_0.0;
        assert(Self::wire(v)->Ok_0 + s3 =~= s);
    }

    proof fn lemma_truncated(v: LocalVar, k: int) {
        let r3 = Seq::<u8>::empty();
        let r2 = bytes_u16(v.index) + r3;
        let r1 = bytes_u16(v.length) + r2;
        assert(Self::wire(v)->Ok_0 =~= bytes_u16(v.start_pc) + r1);
        lemma_u16_prefix(v.start_pc, r1, k);
        if k >= 2 {
            lemma_u16_prefix(v.length, r2, k - 2);
            if k >= 4 {
                lemma_u16_prefix(v.index, r3, k - 4);
            }
        }
    }
}

/// One row of the `MethodParameters` attribute.
#[derive(Debug, Clone, Copy, PartialEq, Eq)]
pub struct MethodParameter {
    pub name_index: u16,
    pub access_flags: u16,
}

impl DeepView for MethodParameter {
    type V = MethodParameter;

    open spec fn deep_view(&self) -> MethodParameter {
        *self
    }
}

impl Wire for MethodParameter {
    open spec fn parse(s: Seq<u8>) -> Parsed<MethodParameter> {
        match parse_u16(s) {
            Err(e) => Err(e),
            Ok((name_index, s1)) => match parse_u16(s1) {
                Err(e) => Err(e),
                Ok((access_flags, s2)) => Ok((MethodParameter { name_index, access_flags }, s2)),
            },
        }
    }

    open spec fn wire(v: MethodParameter) -> Wired {
        Ok(bytes_u16(v.name_index) + bytes_u16(v.access_flags))
    }

    fn decode(buf: &mut BytesMut) -> (r: Result<MethodParameter, Error>) {
        let name_index = read_u16(buf)?;
        let access_flags = read_u16(buf)?;
        Ok(MethodParameter { name_index, access_flags })
    }

    fn write(&self, out: &mut Vec<u8>) -> (r: Result<usize, Error>) {
        push_u16(out, self.name_index);
        push_u16(out, self.access_flags);
        proof {
            assert(out@ =~= old(out)@ + (bytes_u16(self.name_index)
                + bytes_u16(self.access_flags)));
        }
        Ok(4)
    }

    fn encode(&self, out: &mut Vec<u8>) -> (r: Result<usize, Error>) {
        let start = out.len();
        let r = self.write(out);
        settle(out, start, r)
    }

    proof fn lemma_round_trip(v: MethodParameter, tail: Seq<u8>) {
        broadcast use group_wire_round_trip;

    }

    proof fn lemma_exact(s: Seq<u8>) {
        let s0 = s;
        lemma_u16_exact(s0);
        let s1 = parse_u16(s0)->Ok_0.1;
        lemma_u16_exact(s1);
        let s2 = parse_u16(s1)->Ok_0.1;
        let v = Self::parse(s)->Ok_0.0;
        assert(Self::wire(v)->Ok_0 + s2 =~= s);
    }

    proof fn lemma_truncated(v: MethodParameter, k: int) {
        let r2 = Seq::<u8>::empty();
        let r1 = bytes_u16(v.access_flags) + r2;
        assert(Self::wire(v)->Ok_0 =~= bytes_u16(v.name_index) + r1);
        lemma_u16_prefix(v.name_index, r1, k);
        if k >= 2 {
            lemma_u16_prefix(v.access_flags, r2, k - 2);
        }
    }
}

/// One row of the `BootstrapMethods` attribute: the pool index of a method
/// handle and the pool indices of its static arguments.
#[derive(Debug, Clone, PartialEq, Eq)]
pub struct BootstrapMethod {
    pub bootstrap_method_ref: u16,
    pub bootstrap_arguments: Vec<u16>,
}

/// The model of a [`BootstrapMethod`].
pub struct BootstrapMethodView {
    pub bootstrap_method_ref: u16,
    pub bootstrap_arguments: Seq<u16>,
}

impl DeepView for BootstrapMethod {
    type V = BootstrapMethodView;

    open spec fn deep_view(&self) -> BootstrapMethodView {
        BootstrapMethodView {
            bootstrap_method_ref: self.bootstrap_method_ref,
            bootstrap_arguments: self.bootstrap_arguments.deep_view(),
        }
    }
}

impl Wire for BootstrapMethod {
    open spec fn parse(s: Seq<u8>) -> Parsed<BootstrapMethodView> {
        match parse_u16(s) {
            Err(e) => Err(e),
            Ok((bootstrap_method_ref, s1)) => match parse_table16::<u16>(s1) {
                Err(e) => Err(e),
                Ok((bootstrap_arguments, rest)) => Ok(
                    (BootstrapMethodView { bootstrap_method_ref, bootstrap_arguments }, rest),
                ),
            },
        }
    }

    open spec fn wire(v: BootstrapMethodView) -> Wired {
        join(Ok(bytes_u16(v.bootstrap_method_ref)), wire_table16::<u16>(v.bootstrap_arguments))
    }

    fn decode(buf: &mut BytesMut) -> (r: Result<BootstrapMethod, Error>) {
        let bootstrap_method_ref = read_u16(buf)?;
        let bootstrap_arguments = read_table16::<u16>(buf)?;
        Ok(BootstrapMethod { bootstrap_method_ref, bootstrap_arguments })
    }

    fn write(&self, out: &mut Vec<u8>) -> (r: Result<usize, Error>) {
        let start = out.len();
        push_u16(out, self.bootstrap_method_ref);
        write_table16::<u16>(&self.bootstrap_arguments, out)?;
        proof {
            let table = wire_table16::<u16>(self.bootstrap_arguments.deep_view())->Ok_0;
            assert(out@ =~= old(out)@ + (bytes_u16(self.bootstrap_method_ref) + table));
        }
        Ok(out.len() - start)
    }

    fn encode(&self, out: &mut Vec<u8>) -> (r: Result<usize, Error>) {
        let start = out.len();
        let r = self.write(out);
        settle(out, start, r)
    }

    proof fn lemma_round_trip(v: BootstrapMethodView, tail: Seq<u8>) {
        broadcast use group_wire_round_trip;

        lemma_table16_round_trip::<u16>(v.bootstrap_arguments, tail);
    }

    proof fn lemma_exact(s: Seq<u8>) {
        let index = parse_u16(s)->Ok_0.0;
        let s1 = parse_u16(s)->Ok_0.1;
        let arguments = parse_table16::<u16>(s1)->Ok_0.0;
        let rest = parse_table16::<u16>(s1)->Ok_0.1;
        let v = BootstrapMethodView { bootstrap_method_ref: index, bootstrap_arguments: arguments };
        assert(Self::parse(s) == Ok::<(BootstrapMethodView, Seq<u8>), ErrorView>((v, rest)));
        lemma_u16_exact(s);
        lemma_table16_exact::<u16>(s1);
        let table = wire_table16::<u16>(arguments)->Ok_0;
        assert(Self::wire(v) == Ok::<Seq<u8>, ErrorView>(bytes_u16(index) + table));
        assert((bytes_u16(index) + table) + rest =~= bytes_u16(index) + (table + rest));
    }

    proof fn lemma_truncated(v: BootstrapMethodView, k: int) {
        let table = wire_table16::<u16>(v.bootstrap_arguments)->Ok_0;
        let none = Seq::<u8>::empty();
        assert(Self::wire(v)->Ok_0 =~= bytes_u16(v.bootstrap_method_ref) + (table + none));
        lemma_u16_prefix(v.bootstrap_method_ref, table + none, k);
        if k >= 2 {
            lemma_table16_prefix::<u16>(v.bootstrap_arguments, none, k - 2);
        }
    }
}

} // verus!
