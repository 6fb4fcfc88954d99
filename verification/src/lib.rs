//! Codec for the Java class-file format, with the runtime descriptors that
//! are built from a decoded class.
//!
//! Decoding walks a `bytes::BytesMut` cursor; encoding appends to a `Vec<u8>`.
//! Every codec function is specified against a mathematical model of the wire
//! format: a parser and a serialiser over `Seq<u8>`.

use vstd::prelude::*;
use vstd::string::StrSliceExecFns;
use vstd::string::StringSliceAdditionalSpecFns;
use vstd::utf8::{decode_utf8, encode_utf8, valid_utf8};
use bytes::BytesMut;
use crate::error::Error;
use crate::error::ErrorView;
use crate::wire::{
    bytes_u16, decodes, group_wire_round_trip, parse_bytes, parse_u16, push_bytes, push_u16,
    read_exact, read_u16, unread, Parsed, Wired,
};

pub mod error;
pub mod wire;
pub mod codec;
pub mod constant;
pub mod attribute;
pub mod member;
pub mod field;
pub mod method;
pub mod class_file;
pub mod access_flags;
pub mod types;
pub mod ops;
pub mod descriptor;
pub mod basic_type;
pub mod types_ref;
pub mod oops;
pub mod package;
pub mod stack;
pub mod runtime;
pub mod classpath;
pub mod sys;

verus! {

/// The first four bytes of every class file.
pub const MAGIC: u32 = 0xCAFEBABE;

/// Bytes that several owners share.
pub type BytesRef = std::sync::Arc<Vec<u8>>;

/// A constant pool that several owners share.
pub type ConstantPoolRef = std::sync::Arc<Vec<crate::constant::Constant>>;

/// Encoding into a sink of type `T`, with a result of type `S`. Every type of
/// the wire format encodes into a `&mut Vec<u8>` and returns the number of
/// bytes that it appended.
pub trait TryInto<T, S>: Sized {
    type Error;

    fn try_into_buf(&self, t: T) -> Result<S, Self::Error>;
}

/// Decoding from a source of type `T` with the help of a constant pool.
/// Attributes and what holds attributes decode from a `&mut BytesMut`.
pub trait TryFromCp<T>: Sized {
    type Error;

    fn try_from_cp(value: T, constant_pool: &ConstantPoolRef) -> Result<Self, Self::Error>;
}

/// A run of bytes with its 16-bit length in front.
pub open spec fn parse_prefixed(s: Seq<u8>) -> Parsed<Seq<u8>> {
    match parse_u16(s) {
        Err(e) => Err(e),
        Ok((len, s1)) => parse_bytes(s1, len as nat),
    }
}

/// The bytes of a run with its 16-bit length in front. A run of more than
/// 65535 bytes has none.
pub open spec fn wire_prefixed(data: Seq<u8>) -> Wired {
    if data.len() > 65535 {
        Err(ErrorView::InvalidLength)
    } else {
        Ok(bytes_u16(data.len() as u16) + data)
    }
}

/// The text that a length-prefixed run of bytes holds in UTF-8.
pub open spec fn parse_text(s: Seq<u8>) -> Parsed<Seq<char>> {
    match parse_prefixed(s) {
        Err(e) => Err(e),
        Ok((data, rest)) => if valid_utf8(data) {
            Ok((decode_utf8(data), rest))
        } else {
            Err(ErrorView::InvalidString(utf8_error_text(data)))
        },
    }
}

#[verifier::external_type_specification]
#[verifier::external_body]
pub struct ExFromUtf8Error(std::string::FromUtf8Error);

/// The bytes that an error of `String::from_utf8` holds: those that were
/// refused.
pub uninterp spec fn refused(error: std::string::FromUtf8Error) -> Seq<u8>;

/// What `std` says of bytes that are not UTF-8: where the first invalid
/// sequence stands.
pub uninterp spec fn utf8_error_text(bytes: Seq<u8>) -> Seq<char>;

/// `String::from_utf8`: the text of bytes that are valid UTF-8, and for bytes
/// that are not, an error that holds them.
#[verifier::external_body]
pub(crate) fn string_from_utf8(bytes: Vec<u8>) -> (r: Result<String, std::string::FromUtf8Error>)
    ensures
        valid_utf8(bytes@) ==> r is Ok && r->Ok_0@ == decode_utf8(bytes@),
        !valid_utf8(bytes@) ==> r is Err && refused(r->Err_0) == bytes@,
{
    String::from_utf8(bytes)
}

/// `to_string` of the error of `String::from_utf8`: what `std` says of the
/// bytes that it refused.
#[verifier::external_body]
pub(crate) fn utf8_error_message(error: &std::string::FromUtf8Error) -> (text: String)
    ensures
        text@ == utf8_error_text(refused(*error)),
{
    error.to_string()
}

/// Reads a 16-bit length and then that many bytes.
pub fn read_bytes(buf: &mut BytesMut) -> (r: Result<Vec<u8>, Error>)
    ensures
        decodes(r, unread(*old(buf)), unread(*final(buf)), parse_prefixed(unread(*old(buf)))),
{
    let len = read_u16(buf)?;
    read_exact(buf, len as usize)
}

/// Reads a 16-bit length and then that many bytes.
pub fn read_utf8(buf: &mut BytesMut) -> (r: Result<Vec<u8>, Error>)
    ensures
        decodes(r, unread(*old(buf)), unread(*final(buf)), parse_prefixed(unread(*old(buf)))),
{
    read_bytes(buf)
}

/// Reads a 16-bit length and then that many bytes, which must be UTF-8.
pub fn read_string(buf: &mut BytesMut) -> (r: Result<String, Error>)
    ensures
        decodes(r, unread(*old(buf)), unread(*final(buf)), parse_text(unread(*old(buf)))),
{
    let data = read_bytes(buf)?;
    proof {
        assert(data.deep_view() =~= data@);
    }
    match string_from_utf8(data) {
        Ok(text) => Ok(text),
        Err(error) => Err(Error::InvalidString(utf8_error_message(&error))),
    }
}

/// Appends the 16-bit length of `bytes` and then `bytes`, and returns how many
/// bytes that took. More than 65535 bytes are refused and nothing is appended.
pub fn write_bytes(bytes: &Vec<u8>, out: &mut Vec<u8>) -> (r: Result<usize, Error>)
    ensures
        match wire_prefixed(bytes@) {
            Ok(run) => r == Ok::<usize, Error>((bytes@.len() + 2) as usize)
                && final(out)@ == old(out)@ + run,
            Err(e) => r is Err && r->Err_0@ == e && final(out)@ == old(out)@,
        },
{
    if bytes.len() > 65535 {
        return Err(Error::InvalidLength);
    }
    let start = out.len();
    push_u16(out, bytes.len() as u16);
    push_bytes(out, bytes);
    proof {
        assert(out@ =~= old(out)@ + (bytes_u16(bytes@.len() as u16) + bytes@));
    }
    Ok(out.len() - start)
}

/// Appends the 16-bit length of `bytes` and then `bytes`.
pub fn write_utf8(bytes: Vec<u8>, out: &mut Vec<u8>) -> (r: Result<usize, Error>)
    ensures
        match wire_prefixed(bytes@) {
            Ok(run) => r == Ok::<usize, Error>((bytes@.len() + 2) as usize)
                && final(out)@ == old(out)@ + run,
            Err(e) => r is Err && r->Err_0@ == e && final(out)@ == old(out)@,
        },
{
    write_bytes(&bytes, out)
}

/// Appends the text in UTF-8 with the 16-bit length of that encoding in front.
pub fn write_string(string: String, out: &mut Vec<u8>) -> (r: Result<usize, Error>)
    ensures
        match wire_prefixed(encode_utf8(string@)) {
            Ok(run) => r == Ok::<usize, Error>((encode_utf8(string@).len() + 2) as usize)
                && final(out)@ == old(out)@ + run,
            Err(e) => r is Err && r->Err_0@ == e && final(out)@ == old(out)@,
        },
{
    let bytes = string.as_str().as_bytes_vec();
    write_bytes(&bytes, out)
}

/// A run of bytes that was written with its length is read back as it was.
pub proof fn lemma_prefixed_round_trip(data: Seq<u8>, tail: Seq<u8>)
    requires
        data.len() <= 65535,
    ensures
        parse_prefixed(wire_prefixed(data)->Ok_0 + tail) == Ok::<(Seq<u8>, Seq<u8>), ErrorView>(
            (data, tail),
        ),
{
    broadcast use group_wire_round_trip;

}

/// A text that was written in UTF-8 with its length is read back as it was.
pub proof fn lemma_text_round_trip(text: Seq<char>, tail: Seq<u8>)
    requires
        encode_utf8(text).len() <= 65535,
    ensures
        parse_text(wire_prefixed(encode_utf8(text))->Ok_0 + tail) == Ok::<
            (Seq<char>, Seq<u8>),
            ErrorView,
        >((text, tail)),
{
    broadcast use vstd::utf8::encode_utf8_valid_utf8, vstd::utf8::encode_utf8_decode_utf8;

    lemma_prefixed_round_trip(encode_utf8(text), tail);
}

/// A run of bytes that was read with its length is written back as the bytes
/// that it was read from.
pub proof fn lemma_prefixed_exact(s: Seq<u8>)
    requires
        parse_prefixed(s) is Ok,
    ensures
        wire_prefixed(parse_prefixed(s)->Ok_0.0) is Ok,
        wire_prefixed(parse_prefixed(s)->Ok_0.0)->Ok_0 + parse_prefixed(s)->Ok_0.1 == s,
{
    crate::wire::lemma_u16_exact(s);
    let len = parse_u16(s)->Ok_0.0;
    let s1 = parse_u16(s)->Ok_0.1;
    crate::wire::lemma_bytes_exact(s1, len as nat);
    let data = parse_bytes(s1, len as nat)->Ok_0.0;
    let rest = parse_bytes(s1, len as nat)->Ok_0.1;
    assert((bytes_u16(len) + data) + rest =~= bytes_u16(len) + (data + rest));
}

/// A text that was read is written back as the bytes that it was read from.
pub proof fn lemma_text_exact(s: Seq<u8>)
    requires
        parse_text(s) is Ok,
    ensures
        wire_prefixed(encode_utf8(parse_text(s)->Ok_0.0)) is Ok,
        wire_prefixed(encode_utf8(parse_text(s)->Ok_0.0))->Ok_0 + parse_text(s)->Ok_0.1 == s,
{
    lemma_prefixed_exact(s);
    lemma_text_survives(parse_prefixed(s)->Ok_0.0);
}

/// Bytes that were read as UTF-8 text are written back byte for byte.
pub proof fn lemma_text_survives(data: Seq<u8>)
    requires
        valid_utf8(data),
    ensures
        encode_utf8(decode_utf8(data)) == data,
{
    broadcast use vstd::utf8::decode_utf8_encode_utf8;

}

} // verus!
