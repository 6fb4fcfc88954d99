//! Fields and methods, the members of a class: what the two have in common.
//! A member carries attributes, whose names stand in the constant pool, so a
//! member is decoded against a pool.

use vstd::prelude::*;
use bytes::BytesMut;
use crate::codec::{after, behind, join};
use crate::constant::{Constant, ConstantView};
use crate::error::Error;
use crate::error::ErrorView;
use crate::wire::{
    bytes_u16, decodes, encodes, group_wire_round_trip, lemma_u16_prefix, parse_u16, push_u16,
    read_u16, unread, Parsed, Wired,
};

verus! {

/// A member of a class.
pub trait Member: DeepView + Sized {
    /// The member that the bytes of `s` start with and the bytes after it, or
    /// the error that reading it meets first.
    spec fn parse(s: Seq<u8>, pool: Seq<ConstantView>) -> Parsed<Self::V>;

    /// The bytes of `v`, or the reason why `v` cannot be written.
    spec fn wire(v: Self::V) -> Wired;

    /// The member is as a decoder with this pool would hand it out.
    spec fn canonical(v: Self::V, pool: Seq<ConstantView>) -> bool;

    /// Reads one member from the front of the buffer.
    fn decode(buf: &mut BytesMut, pool: &Vec<Constant>) -> (r: Result<Self, Error>)
        ensures
            decodes(
                r,
                unread(*old(buf)),
                unread(*final(buf)),
                Self::parse(unread(*old(buf)), pool.deep_view()),
            ),
    ;

    /// Appends the bytes of the member to `out` and returns how many they
    /// are. This is the step that encoders are built from: where it fails,
    /// `out` may have grown by a part of the bytes, which the caller takes
    /// back.
    fn write(&self, out: &mut Vec<u8>) -> (r: Result<usize, Error>)
        ensures
            encodes(r, old(out)@, final(out)@, Self::wire(self.deep_view())),
    ;

    /// Appends the bytes of the member to `out` and returns how many they
    /// are. A member that has no bytes leaves `out` as it was.
    fn encode(&self, out: &mut Vec<u8>) -> (r: Result<usize, Error>)
        ensures
            encodes(r, old(out)@, final(out)@, Self::wire(self.deep_view())),
            r is Err ==> final(out)@ == old(out)@,
    ;

    /// Parsing the bytes of a member gives the member back, where the member
    /// is as a decoder with this pool would hand it out.
    proof fn lemma_round_trip(v: Self::V, pool: Seq<ConstantView>, tail: Seq<u8>)
        requires
            Self::wire(v) is Ok,
            Self::canonical(v, pool),
        ensures
            Self::parse(Self::wire(v)->Ok_0 + tail, pool) == Ok::<(Self::V, Seq<u8>), ErrorView>(
                (v, tail),
            ),
    ;

    /// A member that was parsed is as a decoder hands members out, and is
    /// written back as the very bytes that it was parsed from.
    proof fn lemma_exact(s: Seq<u8>, pool: Seq<ConstantView>)
        requires
            Self::parse(s, pool) is Ok,
        ensures
            Self::canonical(Self::parse(s, pool)->Ok_0.0, pool),
            Self::wire(Self::parse(s, pool)->Ok_0.0) is Ok,
            Self::wire(Self::parse(s, pool)->Ok_0.0)->Ok_0 + Self::parse(s, pool)->Ok_0.1 == s,
    ;

    /// Parsing the bytes of such a member that were cut short, wherever,
    /// meets a wrong length and nothing else.
    proof fn lemma_truncated(v: Self::V, pool: Seq<ConstantView>, k: int)
        requires
            Self::wire(v) is Ok,
            Self::canonical(v, pool),
            0 <= k < Self::wire(v)->Ok_0.len(),
        ensures
            Self::parse(Self::wire(v)->Ok_0.take(k), pool) == Err::<(Self::V, Seq<u8>), ErrorView>(
                ErrorView::InvalidLength,
            ),
    ;
}

/// A sequence of members that was parsed has the length that was asked for,
/// holds members as a decoder hands them out, and is written back as the
/// very bytes that it was parsed from.
pub proof fn lemma_members_exact<T: Member>(s: Seq<u8>, n: nat, pool: Seq<ConstantView>)
    requires
        parse_members::<T>(s, n, pool) is Ok,
    ensures
        parse_members::<T>(s, n, pool)->Ok_0.0.len() == n,
        forall|i: int|
            0 <= i < n ==> T::canonical(#[trigger] parse_members::<T>(s, n, pool)->Ok_0.0[i], pool),
        wire_members::<T>(parse_members::<T>(s, n, pool)->Ok_0.0) is Ok,
        wire_members::<T>(parse_members::<T>(s, n, pool)->Ok_0.0)->Ok_0 + parse_members::<T>(
            s,
            n,
            pool,
        )->Ok_0.1 == s,
    decreases n,
{
    reveal_with_fuel(parse_members, 2);
    reveal_with_fuel(wire_members, 2);
    if n == 0 {
        assert(Seq::<u8>::empty() + s =~= s);
    } else {
        let first = T::parse(s, pool)->Ok_0.0;
        let s1 = T::parse(s, pool)->Ok_0.1;
        let others = parse_members::<T>(s1, (n - 1) as nat, pool)->Ok_0.0;
        let rest = parse_members::<T>(s1, (n - 1) as nat, pool)->Ok_0.1;
        let items = seq![first] + others;
        T::lemma_exact(s, pool);
        lemma_members_exact::<T>(s1, (n - 1) as nat, pool);
        assert(items[0] == first);
        assert(items.skip(1) =~= others);
        assert forall|i: int| 0 <= i < n implies T::canonical(#[trigger] items[i], pool) by {
            if i > 0 {
                assert(items[i] == others[i - 1]);
            }
        }
        let a = T::wire(first)->Ok_0;
        let b = wire_members::<T>(others)->Ok_0;
        assert((a + b) + rest =~= a + (b + rest));
    }
}

/// A table of members that was parsed holds members as a decoder hands them
/// out, and is written back as the very bytes that it was parsed from.
pub proof fn lemma_member_table_exact<T: Member>(s: Seq<u8>, pool: Seq<ConstantView>)
    requires
        parse_member_table::<T>(s, pool) is Ok,
    ensures
        forall|i: int|
            0 <= i < parse_member_table::<T>(s, pool)->Ok_0.0.len() ==> T::canonical(
                #[trigger] parse_member_table::<T>(s, pool)->Ok_0.0[i],
                pool,
            ),
        wire_member_table::<T>(parse_member_table::<T>(s, pool)->Ok_0.0) is Ok,
        wire_member_table::<T>(parse_member_table::<T>(s, pool)->Ok_0.0)->Ok_0
            + parse_member_table::<T>(s, pool)->Ok_0.1 == s,
{
    let n = parse_u16(s)->Ok_0.0;
    let s1 = parse_u16(s)->Ok_0.1;
    assert(parse_u16(s) is Ok && parse_member_table::<T>(s, pool) == parse_members::<T>(
        s1,
        n as nat,
        pool,
    )) by {
        reveal(parse_member_table);
    }
    crate::wire::lemma_u16_exact(s);
    lemma_members_exact::<T>(s1, n as nat, pool);
    let items = parse_members::<T>(s1, n as nat, pool)->Ok_0.0;
    let rest = parse_members::<T>(s1, n as nat, pool)->Ok_0.1;
    let rows = wire_members::<T>(items)->Ok_0;
    assert(wire_member_table::<T>(items) == Ok::<Seq<u8>, ErrorView>(bytes_u16(n) + rows)) by {
        reveal(wire_member_table);
    }
    assert((bytes_u16(n) + rows) + rest =~= bytes_u16(n) + (rows + rest));
}

/// Of the bytes of a member with more bytes behind them, cut off anywhere:
/// cut inside the member they give a wrong length, cut behind it they give
/// the member and what is left of the rest.
pub proof fn lemma_member_prefix<T: Member>(
    v: T::V,
    pool: Seq<ConstantView>,
    rest: Seq<u8>,
    k: int,
)
    requires
        T::wire(v) is Ok,
        T::canonical(v, pool),
        0 <= k <= T::wire(v)->Ok_0.len() + rest.len(),
    ensures
        T::parse((T::wire(v)->Ok_0 + rest).take(k), pool) == if k < T::wire(v)->Ok_0.len() {
            Err::<(T::V, Seq<u8>), ErrorView>(ErrorView::InvalidLength)
        } else {
            Ok((v, rest.take(k - T::wire(v)->Ok_0.len())))
        },
{
    let bytes = T::wire(v)->Ok_0;
    if k < bytes.len() {
        assert((bytes + rest).take(k) =~= bytes.take(k));
        T::lemma_truncated(v, pool, k);
    } else {
        assert((bytes + rest).take(k) =~= bytes + rest.take(k - bytes.len()));
        T::lemma_round_trip(v, pool, rest.take(k - bytes.len()));
    }
}

/// Of the bytes of a sequence of members with more bytes behind them, cut off
/// anywhere: cut inside the sequence they give a wrong length, cut behind it
/// they give the sequence and what is left of the rest.
pub proof fn lemma_members_prefix<T: Member>(
    items: Seq<T::V>,
    pool: Seq<ConstantView>,
    rest: Seq<u8>,
    k: int,
)
    requires
        wire_members::<T>(items) is Ok,
        forall|i: int| 0 <= i < items.len() ==> T::canonical(#[trigger] items[i], pool),
        0 <= k <= wire_members::<T>(items)->Ok_0.len() + rest.len(),
    ensures
        parse_members::<T>((wire_members::<T>(items)->Ok_0 + rest).take(k), items.len(), pool)
            == if k < wire_members::<T>(items)->Ok_0.len() {
            Err::<(Seq<T::V>, Seq<u8>), ErrorView>(ErrorView::InvalidLength)
        } else {
            Ok((items, rest.take(k - wire_members::<T>(items)->Ok_0.len())))
        },
    decreases items.len(),
{
    reveal_with_fuel(parse_members, 2);
    reveal_with_fuel(wire_members, 2);
    let bytes = wire_members::<T>(items)->Ok_0;
    if items.len() == 0 {
        assert((bytes + rest).take(k) =~= rest.take(k));
        assert(items =~= Seq::<T::V>::empty());
    } else {
        let first = T::wire(items[0])->Ok_0;
        let others = wire_members::<T>(items.skip(1))->Ok_0;
        assert((first + others) + rest =~= first + (others + rest));
        lemma_member_prefix::<T>(items[0], pool, others + rest, k);
        if k >= first.len() {
            assert forall|i: int| 0 <= i < items.skip(1).len() implies T::canonical(
                #[trigger] items.skip(1)[i],
                pool,
            ) by {
                assert(items.skip(1)[i] == items[i + 1]);
            }
            lemma_members_prefix::<T>(items.skip(1), pool, rest, k - first.len());
            assert(seq![items[0]] + items.skip(1) =~= items);
        }
    }
}

/// Of the bytes of a table of members with more bytes behind them, cut off
/// anywhere: cut inside the table they give a wrong length, cut behind it
/// they give the table and what is left of the rest.
pub proof fn lemma_member_table_prefix<T: Member>(
    items: Seq<T::V>,
    pool: Seq<ConstantView>,
    rest: Seq<u8>,
    k: int,
)
    requires
        wire_member_table::<T>(items) is Ok,
        forall|i: int| 0 <= i < items.len() ==> T::canonical(#[trigger] items[i], pool),
        0 <= k <= wire_member_table::<T>(items)->Ok_0.len() + rest.len(),
    ensures
        parse_member_table::<T>((wire_member_table::<T>(items)->Ok_0 + rest).take(k), pool) == if k
            < wire_member_table::<T>(items)->Ok_0.len() {
            Err::<(Seq<T::V>, Seq<u8>), ErrorView>(ErrorView::InvalidLength)
        } else {
            Ok((items, rest.take(k - wire_member_table::<T>(items)->Ok_0.len())))
        },
{
    reveal(parse_member_table);
    reveal(wire_member_table);
    let rows = wire_members::<T>(items)->Ok_0;
    let count = items.len() as u16;
    assert((bytes_u16(count) + rows) + rest =~= bytes_u16(count) + (rows + rest));
    lemma_u16_prefix(count, rows + rest, k);
    if k >= 2 {
        lemma_members_prefix::<T>(items, pool, rest, k - 2);
    }
}

/// `n` members one after the other.
#[verifier::opaque]
pub open spec fn parse_members<T: Member>(s: Seq<u8>, n: nat, pool: Seq<ConstantView>) -> Parsed<
    Seq<T::V>,
>
    decreases n,
{
    if n == 0 {
        Ok((Seq::empty(), s))
    } else {
        match T::parse(s, pool) {
            Err(e) => Err(e),
            Ok((first, s1)) => match parse_members::<T>(s1, (n - 1) as nat, pool) {
                Err(e) => Err(e),
                Ok((others, s2)) => Ok((seq![first] + others, s2)),
            },
        }
    }
}

/// The bytes of the values one after the other, or the error of the first
/// value that has none.
#[verifier::opaque]
pub open spec fn wire_members<T: Member>(items: Seq<T::V>) -> Wired
    decreases items.len(),
{
    if items.len() == 0 {
        Ok(Seq::empty())
    } else {
        match T::wire(items[0]) {
            Err(e) => Err(e),
            Ok(first) => match wire_members::<T>(items.skip(1)) {
                Err(e) => Err(e),
                Ok(others) => Ok(first + others),
            },
        }
    }
}

proof fn lemma_parse_members_step<T: Member>(
    done: Seq<T::V>,
    s: Seq<u8>,
    n: nat,
    pool: Seq<ConstantView>,
)
    requires
        n > 0,
    ensures
        match T::parse(s, pool) {
            Err(e) => after(done, parse_members::<T>(s, n, pool)) == Err::<
                (Seq<T::V>, Seq<u8>),
                ErrorView,
            >(e),
            Ok((first, s1)) => after(done, parse_members::<T>(s, n, pool)) == after(
                done.push(first),
                parse_members::<T>(s1, (n - 1) as nat, pool),
            ),
        },
{
    reveal_with_fuel(parse_members, 2);
    match T::parse(s, pool) {
        Err(e) => {},
        Ok((first, s1)) => {
            match parse_members::<T>(s1, (n - 1) as nat, pool) {
                Err(e) => {},
                Ok((others, s2)) => {
                    assert(done + (seq![first] + others) =~= done.push(first) + others);
                },
            }
        },
    }
}

proof fn lemma_wire_members_step<T: Member>(done: Seq<u8>, items: Seq<T::V>, i: int)
    requires
        0 <= i < items.len(),
    ensures
        match T::wire(items[i]) {
            Err(e) => behind(done, wire_members::<T>(items.skip(i))) == Err::<Seq<u8>, ErrorView>(e),
            Ok(bytes) => behind(done, wire_members::<T>(items.skip(i))) == behind(
                done + bytes,
                wire_members::<T>(items.skip(i + 1)),
            ),
        },
{
    reveal_with_fuel(wire_members, 2);
    let here = items.skip(i);
    assert(here[0] == items[i]);
    assert(here.skip(1) =~= items.skip(i + 1));
    match T::wire(items[i]) {
        Err(e) => {},
        Ok(bytes) => {
            match wire_members::<T>(items.skip(i + 1)) {
                Err(e) => {},
                Ok(others) => {
                    assert(done + (bytes + others) =~= (done + bytes) + others);
                },
            }
        },
    }
}

/// Reads `n` members one after the other.
pub fn read_members<T: Member>(buf: &mut BytesMut, n: usize, pool: &Vec<Constant>) -> (r: Result<
    Vec<T>,
    Error,
>)
    ensures
        decodes(
            r,
            unread(*old(buf)),
            unread(*final(buf)),
            parse_members::<T>(unread(*old(buf)), n as nat, pool.deep_view()),
        ),
{
    let mut items: Vec<T> = Vec::new();
    let mut i: usize = 0;
    proof {
        reveal_with_fuel(parse_members, 2);
        assert(items.deep_view() =~= Seq::<T::V>::empty());
        assert(Seq::<T::V>::empty() + Seq::<T::V>::empty() =~= Seq::<T::V>::empty());
        match parse_members::<T>(unread(*buf), n as nat, pool.deep_view()) {
            Ok((all, rest)) => {
                assert(Seq::<T::V>::empty() + all =~= all);
            },
            Err(e) => {},
        }
    }
    while i < n
        invariant
            i <= n,
            unread(*buf).len() <= unread(*old(buf)).len(),
            parse_members::<T>(unread(*old(buf)), n as nat, pool.deep_view()) == after(
                items.deep_view(),
                parse_members::<T>(unread(*buf), (n - i) as nat, pool.deep_view()),
            ),
        decreases n - i,
    {
        proof {
            lemma_parse_members_step::<T>(
                items.deep_view(),
                unread(*buf),
                (n - i) as nat,
                pool.deep_view(),
            );
        }
        let ghost done = items.deep_view();
        let item = T::decode(buf, pool)?;
        items.push(item);
        proof {
            assert(items.deep_view() =~= done.push(item.deep_view()));
        }
        i += 1;
    }
    proof {
        reveal_with_fuel(parse_members, 2);
        assert(items.deep_view() + Seq::<T::V>::empty() =~= items.deep_view());
    }
    Ok(items)
}

/// Writes the members one after the other and returns how many bytes they
/// took. Where a member has no bytes, `out` may have grown by what came
/// before it.
pub fn write_members<T: Member>(items: &Vec<T>, out: &mut Vec<u8>) -> (r: Result<usize, Error>)
    ensures
        encodes(r, old(out)@, final(out)@, wire_members::<T>(items.deep_view())),
{
    let start = out.len();
    let mut i: usize = 0;
    let ghost done = Seq::<u8>::empty();
    proof {
        assert(items.deep_view().skip(0) =~= items.deep_view());
        match wire_members::<T>(items.deep_view()) {
            Ok(all) => {
                assert(done + all =~= all);
            },
            Err(e) => {},
        }
        assert(out@ =~= old(out)@ + done);
    }
    while i < items.len()
        invariant
            i <= items.len(),
            start == old(out)@.len(),
            out@ == old(out)@ + done,
            wire_members::<T>(items.deep_view()) == behind(
                done,
                wire_members::<T>(items.deep_view().skip(i as int)),
            ),
        decreases items.len() - i,
    {
        proof {
            lemma_wire_members_step::<T>(done, items.deep_view(), i as int);
        }
        items[i].write(out)?;
        proof {
            let bytes = T::wire(items[i as int].deep_view())->Ok_0;
            assert(out@ =~= old(out)@ + (done + bytes));
            done = done + bytes;
        }
        i += 1;
    }
    proof {
        reveal_with_fuel(wire_members, 2);
        assert(items.deep_view().skip(items.len() as int) =~= Seq::<T::V>::empty());
        assert(done + Seq::<u8>::empty() =~= done);
    }
    Ok(out.len() - start)
}

/// Parsing the bytes of a sequence of members gives the sequence back.
pub proof fn lemma_members_round_trip<T: Member>(
    items: Seq<T::V>,
    pool: Seq<ConstantView>,
    tail: Seq<u8>,
)
    requires
        wire_members::<T>(items) is Ok,
        forall|i: int| 0 <= i < items.len() ==> T::canonical(#[trigger] items[i], pool),
    ensures
        parse_members::<T>(wire_members::<T>(items)->Ok_0 + tail, items.len(), pool) == Ok::<
            (Seq<T::V>, Seq<u8>),
            ErrorView,
        >((items, tail)),
    decreases items.len(),
{
    reveal_with_fuel(parse_members, 2);
    reveal_with_fuel(wire_members, 2);
    if items.len() == 0 {
        assert(Seq::<u8>::empty() + tail =~= tail);
        assert(items =~= Seq::<T::V>::empty());
    } else {
        let first = T::wire(items[0])->Ok_0;
        let others = wire_members::<T>(items.skip(1))->Ok_0;
        assert((first + others) + tail =~= first + (others + tail));
        T::lemma_round_trip(items[0], pool, others + tail);
        assert forall|i: int| 0 <= i < items.skip(1).len() implies T::canonical(
            #[trigger] items.skip(1)[i],
            pool,
        ) by {
            assert(items.skip(1)[i] == items[i + 1]);
        }
        lemma_members_round_trip::<T>(items.skip(1), pool, tail);
        assert(seq![items[0]] + items.skip(1) =~= items);
    }
}

/// A table with a 16-bit count in front.
#[verifier::opaque]
pub open spec fn parse_member_table<T: Member>(s: Seq<u8>, pool: Seq<ConstantView>) -> Parsed<
    Seq<T::V>,
> {
    match parse_u16(s) {
        Err(e) => Err(e),
        Ok((n, s1)) => parse_members::<T>(s1, n as nat, pool),
    }
}

/// The bytes of a table with a 16-bit count in front. A table of more than
/// 65535 values has none.
#[verifier::opaque]
pub open spec fn wire_member_table<T: Member>(items: Seq<T::V>) -> Wired {
    if items.len() > 65535 {
        Err(ErrorView::InvalidLength)
    } else {
        join(Ok(bytes_u16(items.len() as u16)), wire_members::<T>(items))
    }
}

/// Reads a table with a 16-bit count in front.
pub fn read_member_table<T: Member>(buf: &mut BytesMut, pool: &Vec<Constant>) -> (r: Result<
    Vec<T>,
    Error,
>)
    ensures
        decodes(
            r,
            unread(*old(buf)),
            unread(*final(buf)),
            parse_member_table::<T>(unread(*old(buf)), pool.deep_view()),
        ),
{
    proof {
        reveal(parse_member_table);
    }
    let n = read_u16(buf)?;
    read_members::<T>(buf, n as usize, pool)
}

/// Writes a table with a 16-bit count in front. Where a member has no bytes,
/// `out` may have grown by what came before it.
pub fn write_member_table<T: Member>(items: &Vec<T>, out: &mut Vec<u8>) -> (r: Result<usize, Error>)
    ensures
        encodes(r, old(out)@, final(out)@, wire_member_table::<T>(items.deep_view())),
{
    proof {
        reveal(wire_member_table);
    }
    if items.len() > 65535 {
        return Err(Error::InvalidLength);
    }
    let start = out.len();
    push_u16(out, items.len() as u16);
    write_members::<T>(items, out)?;
    proof {
        let count = bytes_u16(items.len() as u16);
        let rows = wire_members::<T>(items.deep_view())->Ok_0;
        assert(out@ =~= old(out)@ + (count + rows));
    }
    Ok(out.len() - start)
}

/// Parsing the bytes of a table with a 16-bit count gives the table back.
pub proof fn lemma_member_table_round_trip<T: Member>(
    items: Seq<T::V>,
    pool: Seq<ConstantView>,
    tail: Seq<u8>,
)
    requires
        wire_member_table::<T>(items) is Ok,
        forall|i: int| 0 <= i < items.len() ==> T::canonical(#[trigger] items[i], pool),
    ensures
        parse_member_table::<T>(wire_member_table::<T>(items)->Ok_0 + tail, pool) == Ok::<
            (Seq<T::V>, Seq<u8>),
            ErrorView,
        >((items, tail)),
{
    broadcast use group_wire_round_trip;

    reveal(parse_member_table);
    reveal(wire_member_table);
    lemma_members_round_trip::<T>(items, pool, tail);
}

} // verus!
