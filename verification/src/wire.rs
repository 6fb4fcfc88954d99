//! The byte cursor that decoding reads from, the big-endian primitives of the
//! wire format, and the laws that every encoded type obeys.

use vstd::arithmetic::div_mod::{
    lemma_div_denominator, lemma_fundamental_div_mod, lemma_fundamental_div_mod_converse,
};
use vstd::prelude::*;
use bytes::Buf;
use bytes::BytesMut;
use crate::error::Error;
use crate::error::ErrorView;

verus! {

#[verifier::external_type_specification]
#[verifier::external_body]
pub struct ExBytesMut(bytes::BytesMut);

/// The bytes that a buffer holds and has not handed out yet, in order.
pub uninterp spec fn unread(buf: BytesMut) -> Seq<u8>;

/// The number that two big-endian bytes stand for.
pub open spec fn be_u16(s: Seq<u8>) -> int {
    s[0] as int * 256 + s[1] as int
}

/// The number that four big-endian bytes stand for.
pub open spec fn be_u32(s: Seq<u8>) -> int {
    s[0] as int * 16777216 + s[1] as int * 65536 + s[2] as int * 256 + s[3] as int
}

/// The number that eight big-endian bytes stand for.
pub open spec fn be_u64(s: Seq<u8>) -> int {
    be_u32(s) * 4294967296 + be_u32(s.skip(4))
}

/// The signed number that the 32-bit pattern `x` stands for in two's complement.
pub open spec fn signed32(x: int) -> int {
    if x < 2147483648 {
        x
    } else {
        x - 4294967296
    }
}

/// The signed number that the 64-bit pattern `x` stands for in two's complement.
pub open spec fn signed64(x: int) -> int {
    if x < 9223372036854775808 {
        x
    } else {
        x - 18446744073709551616
    }
}

/// The bit pattern of a signed 32-bit number, as an unsigned number.
pub open spec fn pattern32(v: int) -> int {
    if v >= 0 {
        v
    } else {
        v + 4294967296
    }
}

/// The bit pattern of a signed 64-bit number, as an unsigned number.
pub open spec fn pattern64(v: int) -> int {
    if v >= 0 {
        v
    } else {
        v + 18446744073709551616
    }
}

/// `Buf::remaining` of `BytesMut`: the number of bytes that the buffer holds.
#[verifier::external_body]
pub(crate) fn buf_remaining(buf: &BytesMut) -> (n: usize)
    ensures
        n == unread(*buf).len(),
{
    buf.remaining()
}

/// `Buf::get_u8`: hands out the first byte and advances past it. It panics on
/// an empty buffer, which the precondition leaves out.
#[verifier::external_body]
pub(crate) fn buf_get_u8(buf: &mut BytesMut) -> (v: u8)
    requires
        unread(*old(buf)).len() >= 1,
    ensures
        v == unread(*old(buf))[0],
        unread(*final(buf)) == unread(*old(buf)).skip(1),
{
    buf.get_u8()
}

/// `Buf::get_u16`: reads two bytes as a big-endian number and advances past
/// them. It panics on fewer than two bytes, which the precondition leaves out.
#[verifier::external_body]
pub(crate) fn buf_get_u16(buf: &mut BytesMut) -> (v: u16)
    requires
        unread(*old(buf)).len() >= 2,
    ensures
        v == be_u16(unread(*old(buf))),
        unread(*final(buf)) == unread(*old(buf)).skip(2),
{
    buf.get_u16()
}

/// `Buf::get_u32`: reads four bytes as a big-endian number and advances past
/// them. It panics on fewer than four bytes, which the precondition leaves out.
#[verifier::external_body]
pub(crate) fn buf_get_u32(buf: &mut BytesMut) -> (v: u32)
    requires
        unread(*old(buf)).len() >= 4,
    ensures
        v == be_u32(unread(*old(buf))),
        unread(*final(buf)) == unread(*old(buf)).skip(4),
{
    buf.get_u32()
}

/// `Buf::get_u64`: reads eight bytes as a big-endian number and advances past
/// them. It panics on fewer than eight bytes, which the precondition leaves out.
#[verifier::external_body]
pub(crate) fn buf_get_u64(buf: &mut BytesMut) -> (v: u64)
    requires
        unread(*old(buf)).len() >= 8,
    ensures
        v == be_u64(unread(*old(buf))),
        unread(*final(buf)) == unread(*old(buf)).skip(8),
{
    buf.get_u64()
}

/// `Buf::get_i32`: reads four bytes as a big-endian number in two's complement
/// and advances past them. It panics on fewer than four bytes, which the
/// precondition leaves out.
#[verifier::external_body]
pub(crate) fn buf_get_i32(buf: &mut BytesMut) -> (v: i32)
    requires
        unread(*old(buf)).len() >= 4,
    ensures
        v == signed32(be_u32(unread(*old(buf)))),
        unread(*final(buf)) == unread(*old(buf)).skip(4),
{
    buf.get_i32()
}

/// `Buf::get_i64`: reads eight bytes as a big-endian number in two's
/// complement and advances past them. It panics on fewer than eight bytes,
/// which the precondition leaves out.
#[verifier::external_body]
pub(crate) fn buf_get_i64(buf: &mut BytesMut) -> (v: i64)
    requires
        unread(*old(buf)).len() >= 8,
    ensures
        v == signed64(be_u64(unread(*old(buf)))),
        unread(*final(buf)) == unread(*old(buf)).skip(8),
{
    buf.get_i64()
}

/// `BytesMut::from` a slice: a buffer that holds a copy of the bytes.
#[verifier::external_body]
pub(crate) fn buf_from_slice(bytes: &[u8]) -> (buf: BytesMut)
    ensures
        unread(buf) == bytes@,
{
    BytesMut::from(bytes)
}

/// `BytesMut::split_to`: the first `len` bytes leave the buffer and come back
/// as a buffer of their own. It panics where `len` is more than the buffer
/// holds, which the precondition leaves out.
#[verifier::external_body]
pub(crate) fn buf_split_to(buf: &mut BytesMut, len: usize) -> (head: BytesMut)
    requires
        len <= unread(*old(buf)).len(),
    ensures
        unread(head) == unread(*old(buf)).take(len as int),
        unread(*final(buf)) == unread(*old(buf)).skip(len as int),
{
    buf.split_to(len)
}

/// `to_vec` on the bytes of a `BytesMut`: a copy of what the buffer holds.
#[verifier::external_body]
pub(crate) fn buf_to_vec(buf: &BytesMut) -> (copy: Vec<u8>)
    ensures
        copy@ == unread(*buf),
{
    buf.to_vec()
}

/// What a parser yields: the value and the bytes that follow it, or an error.
pub type Parsed<T> = Result<(T, Seq<u8>), ErrorView>;

/// What a serialiser yields: the bytes of a value, or the reason why it has none.
pub type Wired = Result<Seq<u8>, ErrorView>;

/// A decoder that returned `r` and took the buffer from `before` to `after`
/// did what the parser's outcome `p` on `before` prescribes.
pub open spec fn decodes<T: DeepView>(
    r: Result<T, Error>,
    before: Seq<u8>,
    after: Seq<u8>,
    p: Parsed<T::V>,
) -> bool {
    &&& after.len() <= before.len()
    &&& match p {
        Ok((v, rest)) => r is Ok && r->Ok_0.deep_view() == v && after == rest,
        Err(e) => r is Err && r->Err_0@ == e,
    }
}

/// An encoder that returned `r` and took the output from `before` to `after`
/// did what the serialiser's outcome `w` prescribes: it appended the bytes and
/// returned their number, or failed with the serialiser's error. Either way
/// what the output held before is still there, in front.
pub open spec fn encodes(r: Result<usize, Error>, before: Seq<u8>, after: Seq<u8>, w: Wired) -> bool {
    &&& before.len() <= after.len()
    &&& after.take(before.len() as int) =~= before
    &&& match w {
        Ok(bytes) => r == Ok::<usize, Error>(bytes.len() as usize) && after == before + bytes,
        Err(e) => r is Err && r->Err_0@ == e,
    }
}

pub open spec fn bytes_u16(v: u16) -> Seq<u8> {
    seq![(v / 256) as u8, (v % 256) as u8]
}

pub open spec fn bytes_u32(v: u32) -> Seq<u8> {
    seq![(v / 16777216) as u8, (v / 65536 % 256) as u8, (v / 256 % 256) as u8, (v % 256) as u8]
}

pub open spec fn bytes_u64(v: u64) -> Seq<u8> {
    bytes_u32((v / 4294967296) as u32) + bytes_u32((v % 4294967296) as u32)
}

pub open spec fn parse_u8(s: Seq<u8>) -> Parsed<u8> {
    if s.len() < 1 {
        Err(ErrorView::InvalidLength)
    } else {
        Ok((s[0], s.skip(1)))
    }
}

pub open spec fn parse_u16(s: Seq<u8>) -> Parsed<u16> {
    if s.len() < 2 {
        Err(ErrorView::InvalidLength)
    } else {
        Ok((be_u16(s) as u16, s.skip(2)))
    }
}

pub open spec fn parse_u32(s: Seq<u8>) -> Parsed<u32> {
    if s.len() < 4 {
        Err(ErrorView::InvalidLength)
    } else {
        Ok((be_u32(s) as u32, s.skip(4)))
    }
}

pub open spec fn parse_u64(s: Seq<u8>) -> Parsed<u64> {
    if s.len() < 8 {
        Err(ErrorView::InvalidLength)
    } else {
        Ok((be_u64(s) as u64, s.skip(8)))
    }
}

pub open spec fn parse_i32(s: Seq<u8>) -> Parsed<i32> {
    if s.len() < 4 {
        Err(ErrorView::InvalidLength)
    } else {
        Ok((signed32(be_u32(s)) as i32, s.skip(4)))
    }
}

pub open spec fn parse_i64(s: Seq<u8>) -> Parsed<i64> {
    if s.len() < 8 {
        Err(ErrorView::InvalidLength)
    } else {
        Ok((signed64(be_u64(s)) as i64, s.skip(8)))
    }
}

/// The first `n` bytes, as they are.
pub open spec fn parse_bytes(s: Seq<u8>, n: nat) -> Parsed<Seq<u8>> {
    if s.len() < n {
        Err(ErrorView::InvalidLength)
    } else {
        Ok((s.take(n as int), s.skip(n as int)))
    }
}

pub fn read_u8(buf: &mut BytesMut) -> (r: Result<u8, Error>)
    ensures
        decodes(r, unread(*old(buf)), unread(*final(buf)), parse_u8(unread(*old(buf)))),
{
    if buf_remaining(buf) < 1 {
        Err(Error::InvalidLength)
    } else {
        Ok(buf_get_u8(buf))
    }
}

pub fn read_u16(buf: &mut BytesMut) -> (r: Result<u16, Error>)
    ensures
        decodes(r, unread(*old(buf)), unread(*final(buf)), parse_u16(unread(*old(buf)))),
{
    if buf_remaining(buf) < 2 {
        Err(Error::InvalidLength)
    } else {
        Ok(buf_get_u16(buf))
    }
}

pub fn read_u32(buf: &mut BytesMut) -> (r: Result<u32, Error>)
    ensures
        decodes(r, unread(*old(buf)), unread(*final(buf)), parse_u32(unread(*old(buf)))),
{
    if buf_remaining(buf) < 4 {
        Err(Error::InvalidLength)
    } else {
        Ok(buf_get_u32(buf))
    }
}

pub fn read_u64(buf: &mut BytesMut) -> (r: Result<u64, Error>)
    ensures
        decodes(r, unread(*old(buf)), unread(*final(buf)), parse_u64(unread(*old(buf)))),
{
    if buf_remaining(buf) < 8 {
        Err(Error::InvalidLength)
    } else {
        Ok(buf_get_u64(buf))
    }
}

pub fn read_i32(buf: &mut BytesMut) -> (r: Result<i32, Error>)
    ensures
        decodes(r, unread(*old(buf)), unread(*final(buf)), parse_i32(unread(*old(buf)))),
{
    if buf_remaining(buf) < 4 {
        Err(Error::InvalidLength)
    } else {
        Ok(buf_get_i32(buf))
    }
}

pub fn read_i64(buf: &mut BytesMut) -> (r: Result<i64, Error>)
    ensures
        decodes(r, unread(*old(buf)), unread(*final(buf)), parse_i64(unread(*old(buf)))),
{
    if buf_remaining(buf) < 8 {
        Err(Error::InvalidLength)
    } else {
        Ok(buf_get_i64(buf))
    }
}

/// Splits the next `n` bytes off into a buffer of their own.
pub fn read_frame(buf: &mut BytesMut, n: usize) -> (r: Result<BytesMut, Error>)
    ensures
        unread(*final(buf)).len() <= unread(*old(buf)).len(),
        match parse_bytes(unread(*old(buf)), n as nat) {
            Ok((head, rest)) => r is Ok && unread(r->Ok_0) == head && unread(*final(buf)) == rest,
            Err(e) => r is Err && r->Err_0@ == e,
        },
{
    if buf_remaining(buf) < n {
        Err(Error::InvalidLength)
    } else {
        Ok(buf_split_to(buf, n))
    }
}

/// Takes the next `n` bytes out of the buffer.
pub fn read_exact(buf: &mut BytesMut, n: usize) -> (r: Result<Vec<u8>, Error>)
    ensures
        decodes(r, unread(*old(buf)), unread(*final(buf)), parse_bytes(unread(*old(buf)), n as nat)),
{
    if buf_remaining(buf) < n {
        Err(Error::InvalidLength)
    } else {
        let head = buf_split_to(buf, n);
        let bytes = buf_to_vec(&head);
        proof {
            assert(bytes.deep_view() =~= bytes@);
        }
        Ok(bytes)
    }
}

/// Takes back what an encoder that failed has appended: `out` is cut to the
/// length `start` that it had before, and the outcome is handed on.
pub fn settle(out: &mut Vec<u8>, start: usize, r: Result<usize, Error>) -> (same: Result<
    usize,
    Error,
>)
    requires
        start <= old(out)@.len(),
    ensures
        same == r,
        r is Ok ==> final(out)@ == old(out)@,
        r is Err ==> final(out)@ == old(out)@.take(start as int),
{
    if r.is_err() {
        out.truncate(start);
    }
    r
}

pub fn push_u8(out: &mut Vec<u8>, v: u8)
    ensures
        final(out)@ == old(out)@ + seq![v],
{
    out.push(v);
    proof {
        assert(out@ =~= old(out)@ + seq![v]);
    }
}

pub fn push_u16(out: &mut Vec<u8>, v: u16)
    ensures
        final(out)@ == old(out)@ + bytes_u16(v),
{
    out.push((v / 256) as u8);
    out.push((v % 256) as u8);
    proof {
        assert(out@ =~= old(out)@ + bytes_u16(v));
    }
}

pub fn push_u32(out: &mut Vec<u8>, v: u32)
    ensures
        final(out)@ == old(out)@ + bytes_u32(v),
{
    out.push((v / 16777216) as u8);
    out.push((v / 65536 % 256) as u8);
    out.push((v / 256 % 256) as u8);
    out.push((v % 256) as u8);
    proof {
        assert(out@ =~= old(out)@ + bytes_u32(v));
    }
}

pub fn push_u64(out: &mut Vec<u8>, v: u64)
    ensures
        final(out)@ == old(out)@ + bytes_u64(v),
{
    push_u32(out, (v / 4294967296) as u32);
    push_u32(out, (v % 4294967296) as u32);
    proof {
        assert(out@ =~= old(out)@ + bytes_u64(v));
    }
}

pub fn push_i32(out: &mut Vec<u8>, v: i32)
    ensures
        final(out)@ == old(out)@ + bytes_u32(pattern32(v as int) as u32),
{
    let bits: u32 = if v >= 0 {
        v as u32
    } else {
        (v as i64 + 4294967296) as u32
    };
    push_u32(out, bits);
}

pub fn push_i64(out: &mut Vec<u8>, v: i64)
    ensures
        final(out)@ == old(out)@ + bytes_u64(pattern64(v as int) as u64),
{
    let bits: u64 = if v >= 0 {
        v as u64
    } else {
        (v as i128 + 18446744073709551616) as u64
    };
    push_u64(out, bits);
}

/// Appends the bytes of `data` as they are.
pub fn push_bytes(out: &mut Vec<u8>, data: &Vec<u8>)
    ensures
        final(out)@ == old(out)@ + data@,
{
    let mut i: usize = 0;
    while i < data.len()
        invariant
            i <= data.len(),
            out@ == old(out)@ + data@.take(i as int),
        decreases data.len() - i,
    {
        out.push(data[i]);
        proof {
            assert(out@ =~= old(out)@ + data@.take(i + 1));
        }
        i += 1;
    }
    proof {
        assert(data@.take(data.len() as int) =~= data@);
    }
}

/// Bytes put together in another grouping are the same bytes.
pub broadcast proof fn lemma_concat_assoc(a: Seq<u8>, b: Seq<u8>, c: Seq<u8>)
    ensures
        #[trigger] ((a + b) + c) == a + (b + c),
{
    assert((a + b) + c =~= a + (b + c));
}

pub broadcast proof fn lemma_u8_round_trip(v: u8, tail: Seq<u8>)
    ensures
        #[trigger] parse_u8(seq![v] + tail) == Ok::<(u8, Seq<u8>), ErrorView>((v, tail)),
{
    let s = seq![v] + tail;
    assert(s.skip(1) =~= tail);
}

pub broadcast proof fn lemma_u16_round_trip(v: u16, tail: Seq<u8>)
    ensures
        #[trigger] parse_u16(bytes_u16(v) + tail) == Ok::<(u16, Seq<u8>), ErrorView>((v, tail)),
{
    let s = bytes_u16(v) + tail;
    assert(s.skip(2) =~= tail);
}

pub broadcast proof fn lemma_u32_round_trip(v: u32, tail: Seq<u8>)
    ensures
        #[trigger] parse_u32(bytes_u32(v) + tail) == Ok::<(u32, Seq<u8>), ErrorView>((v, tail)),
{
    let s = bytes_u32(v) + tail;
    lemma_parts32(v as int);
    assert(s[0] == (v / 16777216) as u8);
    assert(s[1] == (v / 65536 % 256) as u8);
    assert(s[2] == (v / 256 % 256) as u8);
    assert(s[3] == (v % 256) as u8);
    assert(be_u32(s) == v);
    assert(s.skip(4) =~= tail);
}

pub broadcast proof fn lemma_u64_round_trip(v: u64, tail: Seq<u8>)
    ensures
        #[trigger] parse_u64(bytes_u64(v) + tail) == Ok::<(u64, Seq<u8>), ErrorView>((v, tail)),
{
    let s = bytes_u64(v) + tail;
    let hi = (v / 4294967296) as u32;
    let lo = (v % 4294967296) as u32;
    lemma_fundamental_div_mod(v as int, 4294967296);
    assert(v == hi * 4294967296 + lo);
    assert(s =~= bytes_u32(hi) + (bytes_u32(lo) + tail));
    lemma_u32_round_trip(hi, bytes_u32(lo) + tail);
    assert(s.skip(4) =~= bytes_u32(lo) + tail);
    lemma_u32_round_trip(lo, tail);
    assert(be_u32(s) == hi);
    assert(be_u32(s.skip(4)) == lo);
    assert(s.skip(8) =~= tail);
}

pub broadcast proof fn lemma_i32_round_trip(v: i32, tail: Seq<u8>)
    ensures
        #[trigger] parse_i32(bytes_u32(pattern32(v as int) as u32) + tail) == Ok::<
            (i32, Seq<u8>),
            ErrorView,
        >((v, tail)),
{
    let bits = pattern32(v as int) as u32;
    lemma_u32_round_trip(bits, tail);
}

pub broadcast proof fn lemma_i64_round_trip(v: i64, tail: Seq<u8>)
    ensures
        #[trigger] parse_i64(bytes_u64(pattern64(v as int) as u64) + tail) == Ok::<
            (i64, Seq<u8>),
            ErrorView,
        >((v, tail)),
{
    let bits = pattern64(v as int) as u64;
    lemma_u64_round_trip(bits, tail);
}

pub broadcast proof fn lemma_bytes_round_trip(data: Seq<u8>, tail: Seq<u8>)
    ensures
        #[trigger] parse_bytes(data + tail, data.len()) == Ok::<(Seq<u8>, Seq<u8>), ErrorView>(
            (data, tail),
        ),
{
    let s = data + tail;
    assert(s.take(data.len() as int) =~= data);
    assert(s.skip(data.len() as int) =~= tail);
}

/// A byte that was read and the bytes behind it are the bytes that were
/// there.
pub proof fn lemma_u8_exact(s: Seq<u8>)
    requires
        parse_u8(s) is Ok,
    ensures
        seq![parse_u8(s)->Ok_0.0] + parse_u8(s)->Ok_0.1 == s,
{
    assert(seq![s[0]] + s.skip(1) =~= s);
}

/// A 16-bit field that was read is written back as the bytes that it was
/// read from.
pub proof fn lemma_u16_exact(s: Seq<u8>)
    requires
        parse_u16(s) is Ok,
    ensures
        bytes_u16(parse_u16(s)->Ok_0.0) + parse_u16(s)->Ok_0.1 == s,
{
    let v = parse_u16(s)->Ok_0.0;
    assert(bytes_u16(v) + s.skip(2) =~= s);
}

/// The digits of a number that four bytes stand for are those bytes.
proof fn lemma_digits32(a: int, b: int, c: int, d: int)
    requires
        0 <= a < 256,
        0 <= b < 256,
        0 <= c < 256,
        0 <= d < 256,
    ensures
        (a * 16777216 + b * 65536 + c * 256 + d) / 16777216 == a,
        (a * 16777216 + b * 65536 + c * 256 + d) / 65536 % 256 == b,
        (a * 16777216 + b * 65536 + c * 256 + d) / 256 % 256 == c,
        (a * 16777216 + b * 65536 + c * 256 + d) % 256 == d,
        0 <= a * 16777216 + b * 65536 + c * 256 + d < 4294967296,
{
    let v = a * 16777216 + b * 65536 + c * 256 + d;
    lemma_fundamental_div_mod_converse(v, 16777216, a, b * 65536 + c * 256 + d);
    lemma_fundamental_div_mod_converse(v, 65536, a * 256 + b, c * 256 + d);
    lemma_fundamental_div_mod_converse(a * 256 + b, 256, a, b);
    lemma_fundamental_div_mod_converse(v, 256, a * 65536 + b * 256 + c, d);
    lemma_fundamental_div_mod_converse(a * 65536 + b * 256 + c, 256, a * 256 + b, c);
}

/// A number below 2^32 is made of its four digits to the base 256.
proof fn lemma_parts32(v: int)
    requires
        0 <= v < 4294967296,
    ensures
        v == (v / 16777216) * 16777216 + (v / 65536 % 256) * 65536 + (v / 256 % 256) * 256 + v % 256,
        0 <= v / 16777216 < 256,
        0 <= v / 65536 % 256 < 256,
        0 <= v / 256 % 256 < 256,
        0 <= v % 256 < 256,
{
    let v1 = v / 256;
    let v2 = v1 / 256;
    let v3 = v2 / 256;
    lemma_fundamental_div_mod(v, 256);
    lemma_fundamental_div_mod(v1, 256);
    lemma_fundamental_div_mod(v2, 256);
    lemma_div_denominator(v, 256, 256);
    lemma_div_denominator(v, 65536, 256);
    assert(v1 / 256 == v / 65536);
    assert(v2 / 256 == v / 16777216);
    assert(v == 256 * v1 + v % 256);
    assert(v1 == 256 * v2 + v1 % 256);
    assert(v2 == 256 * v3 + v2 % 256);
}

/// A 32-bit field that was read is written back as the bytes that it was
/// read from.
pub proof fn lemma_u32_exact(s: Seq<u8>)
    requires
        parse_u32(s) is Ok,
    ensures
        bytes_u32(parse_u32(s)->Ok_0.0) + parse_u32(s)->Ok_0.1 == s,
{
    let v = parse_u32(s)->Ok_0.0;
    lemma_digits32(s[0] as int, s[1] as int, s[2] as int, s[3] as int);
    assert(v == be_u32(s));
    let written = bytes_u32(v);
    assert(written[0] == s[0]);
    assert(written[1] == s[1]);
    assert(written[2] == s[2]);
    assert(written[3] == s[3]);
    assert(written + s.skip(4) =~= s);
}

/// A 64-bit field that was read is written back as the bytes that it was
/// read from.
pub proof fn lemma_u64_exact(s: Seq<u8>)
    requires
        parse_u64(s) is Ok,
    ensures
        bytes_u64(parse_u64(s)->Ok_0.0) + parse_u64(s)->Ok_0.1 == s,
{
    let v = parse_u64(s)->Ok_0.0;
    let hi = be_u32(s);
    let lo = be_u32(s.skip(4));
    lemma_digits32(s[0] as int, s[1] as int, s[2] as int, s[3] as int);
    lemma_digits32(s[4] as int, s[5] as int, s[6] as int, s[7] as int);
    assert(v == hi * 4294967296 + lo);
    lemma_fundamental_div_mod_converse(v as int, 4294967296, hi, lo);
    lemma_u32_exact(s);
    lemma_u32_exact(s.skip(4));
    assert(s.skip(4).skip(4) =~= s.skip(8));
    assert(bytes_u64(v) + s.skip(8) =~= bytes_u32(hi as u32) + (bytes_u32(lo as u32) + s.skip(8)));
}

/// A signed 32-bit field that was read is written back as the bytes that it
/// was read from.
pub proof fn lemma_i32_exact(s: Seq<u8>)
    requires
        parse_i32(s) is Ok,
    ensures
        bytes_u32(pattern32(parse_i32(s)->Ok_0.0 as int) as u32) + parse_i32(s)->Ok_0.1 == s,
{
    let x = be_u32(s);
    assert(0 <= x < 4294967296);
    assert(pattern32(signed32(x)) == x);
    lemma_u32_exact(s);
}

/// A signed 64-bit field that was read is written back as the bytes that it
/// was read from.
pub proof fn lemma_i64_exact(s: Seq<u8>)
    requires
        parse_i64(s) is Ok,
    ensures
        bytes_u64(pattern64(parse_i64(s)->Ok_0.0 as int) as u64) + parse_i64(s)->Ok_0.1 == s,
{
    let x = be_u64(s);
    assert(0 <= be_u32(s) < 4294967296);
    assert(0 <= be_u32(s.skip(4)) < 4294967296);
    assert(0 <= x < 18446744073709551616);
    assert(pattern64(signed64(x)) == x);
    lemma_u64_exact(s);
}

/// A run of bytes that was read and the bytes behind it are the bytes that
/// were there.
pub proof fn lemma_bytes_exact(s: Seq<u8>, n: nat)
    requires
        parse_bytes(s, n) is Ok,
    ensures
        parse_bytes(s, n)->Ok_0.0.len() == n,
        parse_bytes(s, n)->Ok_0.0 + parse_bytes(s, n)->Ok_0.1 == s,
{
    assert(s.take(n as int) + s.skip(n as int) =~= s);
}

/// A byte that is cut off is a wrong length; one that is all there is read as
/// it was written, whatever is cut off behind it.
pub proof fn lemma_u8_prefix(v: u8, rest: Seq<u8>, k: int)
    requires
        0 <= k <= 1 + rest.len(),
    ensures
        parse_u8((seq![v] + rest).take(k)) == if k < 1 {
            Err::<(u8, Seq<u8>), ErrorView>(ErrorView::InvalidLength)
        } else {
            Ok((v, rest.take(k - 1)))
        },
{
    if k >= 1 {
        assert((seq![v] + rest).take(k) =~= seq![v] + rest.take(k - 1));
        lemma_u8_round_trip(v, rest.take(k - 1));
    }
}

/// A 16-bit field that is cut short is a wrong length; one that is all there
/// is read as it was written, whatever is cut off behind it.
pub proof fn lemma_u16_prefix(v: u16, rest: Seq<u8>, k: int)
    requires
        0 <= k <= 2 + rest.len(),
    ensures
        parse_u16((bytes_u16(v) + rest).take(k)) == if k < 2 {
            Err::<(u16, Seq<u8>), ErrorView>(ErrorView::InvalidLength)
        } else {
            Ok((v, rest.take(k - 2)))
        },
{
    if k >= 2 {
        assert((bytes_u16(v) + rest).take(k) =~= bytes_u16(v) + rest.take(k - 2));
        lemma_u16_round_trip(v, rest.take(k - 2));
    }
}

/// A 32-bit field that is cut short is a wrong length; one that is all there
/// is read as it was written, whatever is cut off behind it.
pub proof fn lemma_u32_prefix(v: u32, rest: Seq<u8>, k: int)
    requires
        0 <= k <= 4 + rest.len(),
    ensures
        parse_u32((bytes_u32(v) + rest).take(k)) == if k < 4 {
            Err::<(u32, Seq<u8>), ErrorView>(ErrorView::InvalidLength)
        } else {
            Ok((v, rest.take(k - 4)))
        },
{
    if k >= 4 {
        assert((bytes_u32(v) + rest).take(k) =~= bytes_u32(v) + rest.take(k - 4));
        lemma_u32_round_trip(v, rest.take(k - 4));
    }
}

/// A 64-bit field that is cut short is a wrong length; one that is all there
/// is read as it was written, whatever is cut off behind it.
pub proof fn lemma_u64_prefix(v: u64, rest: Seq<u8>, k: int)
    requires
        0 <= k <= 8 + rest.len(),
    ensures
        parse_u64((bytes_u64(v) + rest).take(k)) == if k < 8 {
            Err::<(u64, Seq<u8>), ErrorView>(ErrorView::InvalidLength)
        } else {
            Ok((v, rest.take(k - 8)))
        },
{
    if k >= 8 {
        assert((bytes_u64(v) + rest).take(k) =~= bytes_u64(v) + rest.take(k - 8));
        lemma_u64_round_trip(v, rest.take(k - 8));
    }
}

/// A signed 32-bit field that is cut short is a wrong length; one that is all
/// there is read as it was written.
pub proof fn lemma_i32_prefix(v: i32, rest: Seq<u8>, k: int)
    requires
        0 <= k <= 4 + rest.len(),
    ensures
        parse_i32((bytes_u32(pattern32(v as int) as u32) + rest).take(k)) == if k < 4 {
            Err::<(i32, Seq<u8>), ErrorView>(ErrorView::InvalidLength)
        } else {
            Ok((v, rest.take(k - 4)))
        },
{
    let bytes = bytes_u32(pattern32(v as int) as u32);
    if k >= 4 {
        assert((bytes + rest).take(k) =~= bytes + rest.take(k - 4));
        lemma_i32_round_trip(v, rest.take(k - 4));
    }
}

/// A signed 64-bit field that is cut short is a wrong length; one that is all
/// there is read as it was written.
pub proof fn lemma_i64_prefix(v: i64, rest: Seq<u8>, k: int)
    requires
        0 <= k <= 8 + rest.len(),
    ensures
        parse_i64((bytes_u64(pattern64(v as int) as u64) + rest).take(k)) == if k < 8 {
            Err::<(i64, Seq<u8>), ErrorView>(ErrorView::InvalidLength)
        } else {
            Ok((v, rest.take(k - 8)))
        },
{
    let bytes = bytes_u64(pattern64(v as int) as u64);
    if k >= 8 {
        assert((bytes + rest).take(k) =~= bytes + rest.take(k - 8));
        lemma_i64_round_trip(v, rest.take(k - 8));
    }
}

/// A run of bytes that is cut short is a wrong length; one that is all there
/// is read as it was written, whatever is cut off behind it.
pub proof fn lemma_bytes_prefix(data: Seq<u8>, rest: Seq<u8>, k: int)
    requires
        0 <= k <= data.len() + rest.len(),
    ensures
        parse_bytes((data + rest).take(k), data.len()) == if k < data.len() {
            Err::<(Seq<u8>, Seq<u8>), ErrorView>(ErrorView::InvalidLength)
        } else {
            Ok((data, rest.take(k - data.len())))
        },
{
    if k >= data.len() {
        assert((data + rest).take(k) =~= data + rest.take(k - data.len()));
        lemma_bytes_round_trip(data, rest.take(k - data.len()));
    }
}

/// The facts that let a round trip through fixed-width fields go through
/// field by field.
pub broadcast group group_wire_round_trip {
    lemma_concat_assoc,
    lemma_u8_round_trip,
    lemma_u16_round_trip,
    lemma_u32_round_trip,
    lemma_u64_round_trip,
    lemma_i32_round_trip,
    lemma_i64_round_trip,
    lemma_bytes_round_trip,
}

} // verus!
