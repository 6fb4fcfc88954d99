//! What every type of the wire format provides: a parser and a serialiser
//! over byte sequences, a decoder and an encoder that follow them, and the
//! proof that the parser inverts the serialiser. On top of that, tables of
//! such types.

use vstd::prelude::*;
use bytes::BytesMut;
use crate::error::Error;
use crate::error::ErrorView;
use crate::wire::{
    bytes_u16, decodes, encodes, group_wire_round_trip, lemma_u16_exact, lemma_u16_prefix,
    lemma_u16_round_trip, lemma_u8_exact, lemma_u8_prefix, parse_u16, parse_u8, push_u16, push_u8,
    read_u16, read_u8, settle, unread, Parsed, Wired,
};

verus! {

/// A type with a wire format.
pub trait Wire: DeepView + Sized {
    /// The value that the bytes of `s` start with and the bytes after it, or
    /// the error that reading it meets first.
    spec fn parse(s: Seq<u8>) -> Parsed<Self::V>;

    /// The bytes of `v`, or the reason why `v` cannot be written.
    spec fn wire(v: Self::V) -> Wired;

    /// Reads one value from the front of the buffer.
    fn decode(buf: &mut BytesMut) -> (r: Result<Self, Error>)
        ensures
            decodes(r, unread(*old(buf)), unread(*final(buf)), Self::parse(unread(*old(buf)))),
    ;

    /// Appends the bytes of the value to `out` and returns how many they are.
    /// This is the step that encoders are built from: where it fails, `out`
    /// may have grown by a part of the bytes, which the caller takes back.
    fn write(&self, out: &mut Vec<u8>) -> (r: Result<usize, Error>)
        ensures
            encodes(r, old(out)@, final(out)@, Self::wire(self.deep_view())),
    ;

    /// Appends the bytes of the value to `out` and returns how many they are.
    /// A value that has no bytes leaves `out` as it was.
    fn encode(&self, out: &mut Vec<u8>) -> (r: Result<usize, Error>)
        ensures
            encodes(r, old(out)@, final(out)@, Self::wire(self.deep_view())),
            r is Err ==> final(out)@ == old(out)@,
    ;

    /// Parsing the bytes of a value gives the value back and stops where they end.
    proof fn lemma_round_trip(v: Self::V, tail: Seq<u8>)
        requires
            Self::wire(v) is Ok,
        ensures
            Self::parse(Self::wire(v)->Ok_0 + tail) == Ok::<(Self::V, Seq<u8>), ErrorView>(
                (v, tail),
            ),
    ;

    /// What was parsed is written back as the very bytes that it was parsed
    /// from.
    proof fn lemma_exact(s: Seq<u8>)
        requires
            Self::parse(s) is Ok,
        ensures
            Self::wire(Self::parse(s)->Ok_0.0) is Ok,
            Self::wire(Self::parse(s)->Ok_0.0)->Ok_0 + Self::parse(s)->Ok_0.1 == s,
    ;

    /// Parsing the bytes of a value that were cut short, wherever, meets a
    /// wrong length and nothing else.
    proof fn lemma_truncated(v: Self::V, k: int)
        requires
            Self::wire(v) is Ok,
            0 <= k < Self::wire(v)->Ok_0.len(),
        ensures
            Self::parse(Self::wire(v)->Ok_0.take(k)) == Err::<(Self::V, Seq<u8>), ErrorView>(
                ErrorView::InvalidLength,
            ),
    ;
}

/// Of the bytes of a value with more bytes behind them, cut off anywhere: cut
/// inside the value they give a wrong length, cut behind it they give the
/// value and what is left of the rest.
pub proof fn lemma_prefix<T: Wire>(v: T::V, rest: Seq<u8>, k: int)
    requires
        T::wire(v) is Ok,
        0 <= k <= T::wire(v)->Ok_0.len() + rest.len(),
    ensures
        T::parse((T::wire(v)->Ok_0 + rest).take(k)) == if k < T::wire(v)->Ok_0.len() {
            Err::<(T::V, Seq<u8>), ErrorView>(ErrorView::InvalidLength)
        } else {
            Ok((v, rest.take(k - T::wire(v)->Ok_0.len())))
        },
{
    let bytes = T::wire(v)->Ok_0;
    if k < bytes.len() {
        assert((bytes + rest).take(k) =~= bytes.take(k));
        T::lemma_truncated(v, k);
    } else {
        assert((bytes + rest).take(k) =~= bytes + rest.take(k - bytes.len()));
        T::lemma_round_trip(v, rest.take(k - bytes.len()));
    }
}

/// `n` values one after the other.
#[verifier::opaque]
pub open spec fn parse_seq<T: Wire>(s: Seq<u8>, n: nat) -> Parsed<Seq<T::V>>
    decreases n,
{
    if n == 0 {
        Ok((Seq::empty(), s))
    } else {
        match T::parse(s) {
            Err(e) => Err(e),
            Ok((first, s1)) => match parse_seq::<T>(s1, (n - 1) as nat) {
                Err(e) => Err(e),
                Ok((others, s2)) => Ok((seq![first] + others, s2)),
            },
        }
    }
}

/// The bytes of the values one after the other, or the error of the first
/// value that has none.
#[verifier::opaque]
pub open spec fn wire_seq<T: Wire>(items: Seq<T::V>) -> Wired
    decreases items.len(),
{
    if items.len() == 0 {
        Ok(Seq::empty())
    } else {
        match T::wire(items[0]) {
            Err(e) => Err(e),
            Ok(first) => match wire_seq::<T>(items.skip(1)) {
                Err(e) => Err(e),
                Ok(others) => Ok(first + others),
            },
        }
    }
}

/// The outcome `p` of parsing what follows, with the values `done` that were
/// parsed before put in front.
pub open spec fn after<A>(done: Seq<A>, p: Parsed<Seq<A>>) -> Parsed<Seq<A>> {
    match p {
        Ok((more, rest)) => Ok((done + more, rest)),
        Err(e) => Err(e),
    }
}

/// The outcome `w` of serialising what follows, with the bytes `done` that
/// were written before put in front.
pub open spec fn behind(done: Seq<u8>, w: Wired) -> Wired {
    match w {
        Ok(more) => Ok(done + more),
        Err(e) => Err(e),
    }
}

proof fn lemma_parse_seq_step<T: Wire>(done: Seq<T::V>, s: Seq<u8>, n: nat)
    requires
        n > 0,
    ensures
        match T::parse(s) {
            Err(e) => after(done, parse_seq::<T>(s, n)) == Err::<(Seq<T::V>, Seq<u8>), ErrorView>(e),
            Ok((first, s1)) => after(done, parse_seq::<T>(s, n)) == after(
                done.push(first),
                parse_seq::<T>(s1, (n - 1) as nat),
            ),
        },
{
    reveal_with_fuel(parse_seq, 2);
    match T::parse(s) {
        Err(e) => {},
        Ok((first, s1)) => {
            match parse_seq::<T>(s1, (n - 1) as nat) {
                Err(e) => {},
                Ok((others, s2)) => {
                    assert(done + (seq![first] + others) =~= done.push(first) + others);
                },
            }
        },
    }
}

proof fn lemma_wire_seq_step<T: Wire>(done: Seq<u8>, items: Seq<T::V>, i: int)
    requires
        0 <= i < items.len(),
    ensures
        match T::wire(items[i]) {
            Err(e) => behind(done, wire_seq::<T>(items.skip(i))) == Err::<Seq<u8>, ErrorView>(e),
            Ok(bytes) => behind(done, wire_seq::<T>(items.skip(i))) == behind(
                done + bytes,
                wire_seq::<T>(items.skip(i + 1)),
            ),
        },
{
    reveal_with_fuel(wire_seq, 2);
    let here = items.skip(i);
    assert(here[0] == items[i]);
    assert(here.skip(1) =~= items.skip(i + 1));
    match T::wire(items[i]) {
        Err(e) => {},
        Ok(bytes) => {
            match wire_seq::<T>(items.skip(i + 1)) {
                Err(e) => {},
                Ok(others) => {
                    assert(done + (bytes + others) =~= (done + bytes) + others);
                },
            }
        },
    }
}

/// Reads `n` values one after the other.
pub fn read_seq<T: Wire>(buf: &mut BytesMut, n: usize) -> (r: Result<Vec<T>, Error>)
    ensures
        decodes(
            r,
            unread(*old(buf)),
            unread(*final(buf)),
            parse_seq::<T>(unread(*old(buf)), n as nat),
        ),
{
    let mut items: Vec<T> = Vec::new();
    let mut i: usize = 0;
    proof {
        reveal_with_fuel(parse_seq, 2);
        assert(items.deep_view() =~= Seq::<T::V>::empty());
        assert(Seq::<T::V>::empty() + Seq::<T::V>::empty() =~= Seq::<T::V>::empty());
        match parse_seq::<T>(unread(*buf), n as nat) {
            Ok((all, rest)) => {
                assert(Seq::<T::V>::empty() + all =~= all);
            },
            Err(e) => {},
        }
    }
    while i < n
        invariant
            i <= n,
            unread(*buf).len() <= unread(*old(buf)).len(),
            parse_seq::<T>(unread(*old(buf)), n as nat) == after(
                items.deep_view(),
                parse_seq::<T>(unread(*buf), (n - i) as nat),
            ),
        decreases n - i,
    {
        proof {
            lemma_parse_seq_step::<T>(items.deep_view(), unread(*buf), (n - i) as nat);
        }
        let ghost done = items.deep_view();
        let item = T::decode(buf)?;
        items.push(item);
        proof {
            assert(items.deep_view() =~= done.push(item.deep_view()));
        }
        i += 1;
    }
    proof {
        reveal_with_fuel(parse_seq, 2);
        assert(items.deep_view() + Seq::<T::V>::empty() =~= items.deep_view());
    }
    Ok(items)
}

/// Writes the values one after the other and returns how many bytes they
/// took. Where a value has no bytes, `out` may have grown by what came before
/// it.
pub fn write_seq<T: Wire>(items: &Vec<T>, out: &mut Vec<u8>) -> (r: Result<usize, Error>)
    ensures
        encodes(r, old(out)@, final(out)@, wire_seq::<T>(items.deep_view())),
{
    let start = out.len();
    let mut i: usize = 0;
    let ghost done = Seq::<u8>::empty();
    proof {
        assert(items.deep_view().skip(0) =~= items.deep_view());
        match wire_seq::<T>(items.deep_view()) {
            Ok(all) => {
                assert(done + all =~= all);
            },
            Err(e) => {},
        }
        assert(out@ =~= old(out)@ + done);
    }
    while i < items.len()
        invariant
            i <= items.len(),
            start == old(out)@.len(),
            out@ == old(out)@ + done,
            wire_seq::<T>(items.deep_view()) == behind(
                done,
                wire_seq::<T>(items.deep_view().skip(i as int)),
            ),
        decreases items.len() - i,
    {
        proof {
            lemma_wire_seq_step::<T>(done, items.deep_view(), i as int);
        }
        items[i].write(out)?;
        proof {
            let bytes = T::wire(items[i as int].deep_view())->Ok_0;
            assert(out@ =~= old(out)@ + (done + bytes));
            done = done + bytes;
        }
        i += 1;
    }
    proof {
        reveal_with_fuel(wire_seq, 2);
        assert(items.deep_view().skip(items.len() as int) =~= Seq::<T::V>::empty());
        assert(done + Seq::<u8>::empty() =~= done);
    }
    Ok(out.len() - start)
}

/// Parsing the bytes of a sequence of values gives the sequence back.
pub proof fn lemma_seq_round_trip<T: Wire>(items: Seq<T::V>, tail: Seq<u8>)
    requires
        wire_seq::<T>(items) is Ok,
    ensures
        parse_seq::<T>(wire_seq::<T>(items)->Ok_0 + tail, items.len()) == Ok::<
            (Seq<T::V>, Seq<u8>),
            ErrorView,
        >((items, tail)),
    decreases items.len(),
{
    reveal_with_fuel(parse_seq, 2);
    reveal_with_fuel(wire_seq, 2);
    if items.len() == 0 {
        assert(Seq::<u8>::empty() + tail =~= tail);
        assert(items =~= Seq::<T::V>::empty());
    } else {
        let first = T::wire(items[0])->Ok_0;
        let others = wire_seq::<T>(items.skip(1))->Ok_0;
        assert((first + others) + tail =~= first + (others + tail));
        T::lemma_round_trip(items[0], others + tail);
        lemma_seq_round_trip::<T>(items.skip(1), tail);
        assert(seq![items[0]] + items.skip(1) =~= items);
    }
}

/// A sequence of values that was parsed has the length that was asked for
/// and is written back as the very bytes that it was parsed from.
pub proof fn lemma_seq_exact<T: Wire>(s: Seq<u8>, n: nat)
    requires
        parse_seq::<T>(s, n) is Ok,
    ensures
        parse_seq::<T>(s, n)->Ok_0.0.len() == n,
        wire_seq::<T>(parse_seq::<T>(s, n)->Ok_0.0) is Ok,
        wire_seq::<T>(parse_seq::<T>(s, n)->Ok_0.0)->Ok_0 + parse_seq::<T>(s, n)->Ok_0.1 == s,
    decreases n,
{
    reveal_with_fuel(parse_seq, 2);
    reveal_with_fuel(wire_seq, 2);
    if n == 0 {
        assert(Seq::<u8>::empty() + s =~= s);
    } else {
        let first = T::parse(s)->Ok_0.0;
        let s1 = T::parse(s)->Ok_0.1;
        let others = parse_seq::<T>(s1, (n - 1) as nat)->Ok_0.0;
        let rest = parse_seq::<T>(s1, (n - 1) as nat)->Ok_0.1;
        let items = seq![first] + others;
        T::lemma_exact(s);
        lemma_seq_exact::<T>(s1, (n - 1) as nat);
        assert(items[0] == first);
        assert(items.skip(1) =~= others);
        let a = T::wire(first)->Ok_0;
        let b = wire_seq::<T>(others)->Ok_0;
        assert((a + b) + rest =~= a + (b + rest));
    }
}

/// A table with a 16-bit count that was parsed is written back as the very
/// bytes that it was parsed from.
pub proof fn lemma_table16_exact<T: Wire>(s: Seq<u8>)
    requires
        parse_table16::<T>(s) is Ok,
    ensures
        wire_table16::<T>(parse_table16::<T>(s)->Ok_0.0) is Ok,
        wire_table16::<T>(parse_table16::<T>(s)->Ok_0.0)->Ok_0 + parse_table16::<T>(s)->Ok_0.1 == s,
{
    let n = parse_u16(s)->Ok_0.0;
    let s1 = parse_u16(s)->Ok_0.1;
    assert(parse_u16(s) is Ok && parse_table16::<T>(s) == parse_seq::<T>(s1, n as nat)) by {
        reveal(parse_table16);
    }
    lemma_u16_exact(s);
    lemma_seq_exact::<T>(s1, n as nat);
    let items = parse_seq::<T>(s1, n as nat)->Ok_0.0;
    let rest = parse_seq::<T>(s1, n as nat)->Ok_0.1;
    let rows = wire_seq::<T>(items)->Ok_0;
    assert(wire_table16::<T>(items) == Ok::<Seq<u8>, ErrorView>(bytes_u16(n) + rows)) by {
        reveal(wire_table16);
    }
    assert((bytes_u16(n) + rows) + rest =~= bytes_u16(n) + (rows + rest));
}

/// A table with an 8-bit count that was parsed is written back as the very
/// bytes that it was parsed from.
pub proof fn lemma_table8_exact<T: Wire>(s: Seq<u8>)
    requires
        parse_table8::<T>(s) is Ok,
    ensures
        wire_table8::<T>(parse_table8::<T>(s)->Ok_0.0) is Ok,
        wire_table8::<T>(parse_table8::<T>(s)->Ok_0.0)->Ok_0 + parse_table8::<T>(s)->Ok_0.1 == s,
{
    let n = parse_u8(s)->Ok_0.0;
    let s1 = parse_u8(s)->Ok_0.1;
    assert(parse_u8(s) is Ok && parse_table8::<T>(s) == parse_seq::<T>(s1, n as nat)) by {
        reveal(parse_table8);
    }
    lemma_u8_exact(s);
    lemma_seq_exact::<T>(s1, n as nat);
    let items = parse_seq::<T>(s1, n as nat)->Ok_0.0;
    let rest = parse_seq::<T>(s1, n as nat)->Ok_0.1;
    let rows = wire_seq::<T>(items)->Ok_0;
    assert(wire_table8::<T>(items) == Ok::<Seq<u8>, ErrorView>(seq![n] + rows)) by {
        reveal(wire_table8);
    }
    assert((seq![n] + rows) + rest =~= seq![n] + (rows + rest));
}

/// Of the bytes of a sequence of values with more bytes behind them, cut off
/// anywhere: cut inside the sequence they give a wrong length, cut behind it
/// they give the sequence and what is left of the rest.
pub proof fn lemma_seq_prefix<T: Wire>(items: Seq<T::V>, rest: Seq<u8>, k: int)
    requires
        wire_seq::<T>(items) is Ok,
        0 <= k <= wire_seq::<T>(items)->Ok_0.len() + rest.len(),
    ensures
        parse_seq::<T>((wire_seq::<T>(items)->Ok_0 + rest).take(k), items.len()) == if k
            < wire_seq::<T>(items)->Ok_0.len() {
            Err::<(Seq<T::V>, Seq<u8>), ErrorView>(ErrorView::InvalidLength)
        } else {
            Ok((items, rest.take(k - wire_seq::<T>(items)->Ok_0.len())))
        },
    decreases items.len(),
{
    reveal_with_fuel(parse_seq, 2);
    reveal_with_fuel(wire_seq, 2);
    let bytes = wire_seq::<T>(items)->Ok_0;
    if items.len() == 0 {
        assert((bytes + rest).take(k) =~= rest.take(k));
        assert(items =~= Seq::<T::V>::empty());
    } else {
        let first = T::wire(items[0])->Ok_0;
        let others = wire_seq::<T>(items.skip(1))->Ok_0;
        assert((first + others) + rest =~= first + (others + rest));
        lemma_prefix::<T>(items[0], others + rest, k);
        if k >= first.len() {
            lemma_seq_prefix::<T>(items.skip(1), rest, k - first.len());
            assert(seq![items[0]] + items.skip(1) =~= items);
        }
    }
}

/// Of the bytes of a table with a 16-bit count and more bytes behind them,
/// cut off anywhere: cut inside the table they give a wrong length, cut
/// behind it they give the table and what is left of the rest.
pub proof fn lemma_table16_prefix<T: Wire>(items: Seq<T::V>, rest: Seq<u8>, k: int)
    requires
        wire_table16::<T>(items) is Ok,
        0 <= k <= wire_table16::<T>(items)->Ok_0.len() + rest.len(),
    ensures
        parse_table16::<T>((wire_table16::<T>(items)->Ok_0 + rest).take(k)) == if k
            < wire_table16::<T>(items)->Ok_0.len() {
            Err::<(Seq<T::V>, Seq<u8>), ErrorView>(ErrorView::InvalidLength)
        } else {
            Ok((items, rest.take(k - wire_table16::<T>(items)->Ok_0.len())))
        },
{
    reveal(parse_table16);
    reveal(wire_table16);
    let rows = wire_seq::<T>(items)->Ok_0;
    let count = items.len() as u16;
    assert((bytes_u16(count) + rows) + rest =~= bytes_u16(count) + (rows + rest));
    lemma_u16_prefix(count, rows + rest, k);
    if k >= 2 {
        lemma_seq_prefix::<T>(items, rest, k - 2);
    }
}

/// Of the bytes of a table with an 8-bit count and more bytes behind them,
/// cut off anywhere: cut inside the table they give a wrong length, cut
/// behind it they give the table and what is left of the rest.
pub proof fn lemma_table8_prefix<T: Wire>(items: Seq<T::V>, rest: Seq<u8>, k: int)
    requires
        wire_table8::<T>(items) is Ok,
        0 <= k <= wire_table8::<T>(items)->Ok_0.len() + rest.len(),
    ensures
        parse_table8::<T>((wire_table8::<T>(items)->Ok_0 + rest).take(k)) == if k < wire_table8::<
            T,
        >(items)->Ok_0.len() {
            Err::<(Seq<T::V>, Seq<u8>), ErrorView>(ErrorView::InvalidLength)
        } else {
            Ok((items, rest.take(k - wire_table8::<T>(items)->Ok_0.len())))
        },
{
    reveal(parse_table8);
    reveal(wire_table8);
    let rows = wire_seq::<T>(items)->Ok_0;
    let count = items.len() as u8;
    assert((seq![count] + rows) + rest =~= seq![count] + (rows + rest));
    lemma_u8_prefix(count, rows + rest, k);
    if k >= 1 {
        lemma_seq_prefix::<T>(items, rest, k - 1);
    }
}

/// The bytes of two parts one after the other, or the error of the first part
/// that has none.
pub open spec fn join(first: Wired, second: Wired) -> Wired {
    match first {
        Err(e) => Err(e),
        Ok(a) => match second {
            Err(e) => Err(e),
            Ok(b) => Ok(a + b),
        },
    }
}

/// A table with a 16-bit count in front.
#[verifier::opaque]
pub open spec fn parse_table16<T: Wire>(s: Seq<u8>) -> Parsed<Seq<T::V>> {
    match parse_u16(s) {
        Err(e) => Err(e),
        Ok((n, s1)) => parse_seq::<T>(s1, n as nat),
    }
}

/// The bytes of a table with a 16-bit count in front. A table of more than
/// 65535 values has none.
#[verifier::opaque]
pub open spec fn wire_table16<T: Wire>(items: Seq<T::V>) -> Wired {
    if items.len() > 65535 {
        Err(ErrorView::InvalidLength)
    } else {
        join(Ok(bytes_u16(items.len() as u16)), wire_seq::<T>(items))
    }
}

/// A table with an 8-bit count in front.
#[verifier::opaque]
pub open spec fn parse_table8<T: Wire>(s: Seq<u8>) -> Parsed<Seq<T::V>> {
    match parse_u8(s) {
        Err(e) => Err(e),
        Ok((n, s1)) => parse_seq::<T>(s1, n as nat),
    }
}

/// The bytes of a table with an 8-bit count in front. A table of more than
/// 255 values has none.
#[verifier::opaque]
pub open spec fn wire_table8<T: Wire>(items: Seq<T::V>) -> Wired {
    if items.len() > 255 {
        Err(ErrorView::InvalidLength)
    } else {
        join(Ok(seq![items.len() as u8]), wire_seq::<T>(items))
    }
}

/// Reads a table with a 16-bit count in front.
pub fn read_table16<T: Wire>(buf: &mut BytesMut) -> (r: Result<Vec<T>, Error>)
    ensures
        decodes(r, unread(*old(buf)), unread(*final(buf)), parse_table16::<T>(unread(*old(buf)))),
{
    proof {
        reveal(parse_table16);
    }
    let n = read_u16(buf)?;
    read_seq::<T>(buf, n as usize)
}

/// Writes a table with a 16-bit count in front. Where a value has no bytes,
/// `out` may have grown by what came before it.
pub fn write_table16<T: Wire>(items: &Vec<T>, out: &mut Vec<u8>) -> (r: Result<usize, Error>)
    ensures
        encodes(r, old(out)@, final(out)@, wire_table16::<T>(items.deep_view())),
{
    proof {
        reveal(wire_table16);
    }
    if items.len() > 65535 {
        return Err(Error::InvalidLength);
    }
    let start = out.len();
    push_u16(out, items.len() as u16);
    write_seq::<T>(items, out)?;
    proof {
        let count = bytes_u16(items.len() as u16);
        let rows = wire_seq::<T>(items.deep_view())->Ok_0;
        assert(out@ =~= old(out)@ + (count + rows));
    }
    Ok(out.len() - start)
}

/// Reads a table with an 8-bit count in front.
pub fn read_table8<T: Wire>(buf: &mut BytesMut) -> (r: Result<Vec<T>, Error>)
    ensures
        decodes(r, unread(*old(buf)), unread(*final(buf)), parse_table8::<T>(unread(*old(buf)))),
{
    proof {
        reveal(parse_table8);
    }
    let n = read_u8(buf)?;
    read_seq::<T>(buf, n as usize)
}

/// Writes a table with an 8-bit count in front. Where a value has no bytes,
/// `out` may have grown by what came before it.
pub fn write_table8<T: Wire>(items: &Vec<T>, out: &mut Vec<u8>) -> (r: Result<usize, Error>)
    ensures
        encodes(r, old(out)@, final(out)@, wire_table8::<T>(items.deep_view())),
{
    proof {
        reveal(wire_table8);
    }
    if items.len() > 255 {
        return Err(Error::InvalidLength);
    }
    let start = out.len();
    push_u8(out, items.len() as u8);
    write_seq::<T>(items, out)?;
    proof {
        let count = seq![items.len() as u8];
        let rows = wire_seq::<T>(items.deep_view())->Ok_0;
        assert(out@ =~= old(out)@ + (count + rows));
    }
    Ok(out.len() - start)
}

/// Parsing the bytes of a table with a 16-bit count gives the table back.
pub proof fn lemma_table16_round_trip<T: Wire>(items: Seq<T::V>, tail: Seq<u8>)
    requires
        wire_table16::<T>(items) is Ok,
    ensures
        parse_table16::<T>(wire_table16::<T>(items)->Ok_0 + tail) == Ok::<
            (Seq<T::V>, Seq<u8>),
            ErrorView,
        >((items, tail)),
{
    broadcast use group_wire_round_trip;

    reveal(parse_table16);
    reveal(wire_table16);
    lemma_seq_round_trip::<T>(items, tail);
}

/// Parsing the bytes of a table with an 8-bit count gives the table back.
pub proof fn lemma_table8_round_trip<T: Wire>(items: Seq<T::V>, tail: Seq<u8>)
    requires
        wire_table8::<T>(items) is Ok,
    ensures
        parse_table8::<T>(wire_table8::<T>(items)->Ok_0 + tail) == Ok::<
            (Seq<T::V>, Seq<u8>),
            ErrorView,
        >((items, tail)),
{
    broadcast use group_wire_round_trip;

    reveal(parse_table8);
    reveal(wire_table8);
    lemma_seq_round_trip::<T>(items, tail);
}

impl<'a, X: Wire> crate::TryInto<&'a mut Vec<u8>, usize> for X {
    type Error = Error;

    fn try_into_buf(&self, out: &'a mut Vec<u8>) -> (r: Result<usize, Error>)
        ensures
            encodes(r, old(out)@, final(out)@, X::wire(self.deep_view())),
            r is Err ==> final(out)@ == old(out)@,
    {
        self.encode(out)
    }
}

impl Wire for u8 {
    open spec fn parse(s: Seq<u8>) -> Parsed<u8> {
        parse_u8(s)
    }

    open spec fn wire(v: u8) -> Wired {
        Ok(seq![v])
    }

    fn decode(buf: &mut BytesMut) -> (r: Result<u8, Error>) {
        read_u8(buf)
    }

    fn write(&self, out: &mut Vec<u8>) -> (r: Result<usize, Error>) {
        push_u8(out, *self);
        Ok(1)
    }

    fn encode(&self, out: &mut Vec<u8>) -> (r: Result<usize, Error>) {
        let start = out.len();
        let r = self.write(out);
        settle(out, start, r)
    }

    proof fn lemma_round_trip(v: u8, tail: Seq<u8>) {
        assert((seq![v] + tail).skip(1) =~= tail);
    }

    proof fn lemma_exact(s: Seq<u8>) {
        lemma_u8_exact(s);
    }

    proof fn lemma_truncated(v: u8, k: int) {
    }
}

impl Wire for u16 {
    open spec fn parse(s: Seq<u8>) -> Parsed<u16> {
        parse_u16(s)
    }

    open spec fn wire(v: u16) -> Wired {
        Ok(bytes_u16(v))
    }

    fn decode(buf: &mut BytesMut) -> (r: Result<u16, Error>) {
        read_u16(buf)
    }

    fn write(&self, out: &mut Vec<u8>) -> (r: Result<usize, Error>) {
        push_u16(out, *self);
        Ok(2)
    }

    fn encode(&self, out: &mut Vec<u8>) -> (r: Result<usize, Error>) {
        let start = out.len();
        let r = self.write(out);
        settle(out, start, r)
    }

    proof fn lemma_round_trip(v: u16, tail: Seq<u8>) {
        lemma_u16_round_trip(v, tail);
    }

    proof fn lemma_exact(s: Seq<u8>) {
        lemma_u16_exact(s);
    }

    proof fn lemma_truncated(v: u16, k: int) {
    }
}

} // verus!
