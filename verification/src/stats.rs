//! Binary codec for [`Statistics`] snapshots.
//!
//! A statistics tree is serialized as a compact count of entries followed by
//! each entry: the session identifier string, then a compact count of
//! controller ids followed by the ids as little-endian 16-bit integers. A
//! well-formed tree keeps its keys strictly ascending in code-point order
//! and each id set strictly ascending, so it has a single canonical byte
//! image; encoding a well-formed tree and decoding the result yields the
//! tree back, entry for entry.

use vstd::prelude::*;
use crate::DecodeError;
use crate::messages::Statistics;
use crate::wire::{
    lemma_read_string_at, lemma_read_u16_at, lemma_read_varint_at, lemma_read_varint_from_bound,
    lemma_subrange_of_matching, read_string, read_u16, read_varint, spec_read_string,
    spec_read_u16, spec_read_varint, spec_string_enc, spec_u16_le, spec_varint, write_string,
    write_u16, write_varint,
};

verus! {

broadcast use vstd::seq_lib::group_seq_lib_default, vstd::seq::group_seq_axioms;

/// Strict code-point order on character sequences; for strings this agrees
/// with the byte order of their UTF-8 encodings.
pub open spec fn chars_lt(a: Seq<char>, b: Seq<char>) -> bool
    decreases a.len(),
{
    if b.len() == 0 {
        false
    } else if a.len() == 0 {
        true
    } else if a[0] != b[0] {
        (a[0] as u32) < (b[0] as u32)
    } else {
        chars_lt(a.drop_first(), b.drop_first())
    }
}

/// A well-formed statistics tree: keys strictly ascending, and every set of
/// controller ids strictly ascending.
pub open spec fn stats_wf(t: Seq<(Seq<char>, Seq<u16>)>) -> bool {
    &&& forall|i: int, j: int|
        0 <= i < j < t.len() ==> chars_lt(#[trigger] t[i].0, #[trigger] t[j].0)
    &&& forall|i: int, p: int, q: int|
        0 <= i < t.len() && 0 <= p < q < t[i].1.len() ==> #[trigger] t[i].1[p] < #[trigger] t[i].1[q]
}

/// The bytes of a sequence of 16-bit controller ids.
pub open spec fn spec_enc_u16s(s: Seq<u16>) -> Seq<u8>
    decreases s.len(),
{
    if s.len() == 0 {
        Seq::empty()
    } else {
        spec_u16_le(s[0]) + spec_enc_u16s(s.drop_first())
    }
}

/// The bytes of one id set: a compact count, then the ids.
pub open spec fn spec_enc_set(s: Seq<u16>) -> Seq<u8> {
    spec_varint(s.len() as nat) + spec_enc_u16s(s)
}

/// The bytes of the entries of a tree, in order.
pub open spec fn spec_enc_entries(t: Seq<(Seq<char>, Seq<u16>)>) -> Seq<u8>
    decreases t.len(),
{
    if t.len() == 0 {
        Seq::empty()
    } else {
        spec_string_enc(t[0].0) + spec_enc_set(t[0].1) + spec_enc_entries(t.drop_first())
    }
}

/// The bytes of a whole [`Statistics`] tree.
pub open spec fn spec_enc_stats(t: Seq<(Seq<char>, Seq<u16>)>) -> Seq<u8> {
    spec_varint(t.len() as nat) + spec_enc_entries(t)
}

/// Parse `n` 16-bit ids.
pub open spec fn spec_read_u16s(bytes: Seq<u8>, pos: int, n: nat) -> Result<
    (Seq<u16>, int),
    DecodeError,
>
    decreases n,
{
    if n == 0 {
        Ok((Seq::empty(), pos))
    } else {
        match spec_read_u16(bytes, pos) {
            Ok((v, p)) => match spec_read_u16s(bytes, p, (n - 1) as nat) {
                Ok((rest, e)) => Ok((seq![v] + rest, e)),
                Err(e) => Err(e),
            },
            Err(e) => Err(e),
        }
    }
}

/// Parse one id set.
pub open spec fn spec_read_set(bytes: Seq<u8>, pos: int) -> Result<(Seq<u16>, int), DecodeError> {
    match spec_read_varint(bytes, pos) {
        Ok((n, p)) => spec_read_u16s(bytes, p, n),
        Err(_) => Err(DecodeError::TruncatedInput),
    }
}

/// Parse `n` entries.
pub open spec fn spec_read_entries(bytes: Seq<u8>, pos: int, n: nat) -> Result<
    (Seq<(Seq<char>, Seq<u16>)>, int),
    DecodeError,
>
    decreases n,
{
    if n == 0 {
        Ok((Seq::empty(), pos))
    } else {
        match spec_read_string(bytes, pos) {
            Ok((key, pk)) => match spec_read_set(bytes, pk) {
                Ok((ids, ps)) => match spec_read_entries(bytes, ps, (n - 1) as nat) {
                    Ok((rest, e)) => Ok((seq![(key, ids)] + rest, e)),
                    Err(e) => Err(e),
                },
                Err(e) => Err(e),
            },
            Err(e) => Err(e),
        }
    }
}

/// Parse a whole tree.
pub open spec fn spec_read_stats(bytes: Seq<u8>, pos: int) -> Result<
    (Seq<(Seq<char>, Seq<u16>)>, int),
    DecodeError,
> {
    match spec_read_varint(bytes, pos) {
        Ok((n, p)) => spec_read_entries(bytes, p, n),
        Err(_) => Err(DecodeError::TruncatedInput),
    }
}

/// Decode a whole buffer as one [`Statistics`] tree.
pub open spec fn spec_decode_stats(bytes: Seq<u8>) -> Result<
    Seq<(Seq<char>, Seq<u16>)>,
    DecodeError,
> {
    match spec_read_stats(bytes, 0) {
        Ok((v, end)) => if end == bytes.len() {
            Ok(v)
        } else {
            Err(DecodeError::TrailingBytes)
        },
        Err(e) => Err(e),
    }
}

/// Append the encoding of one id set.
pub fn write_set(out: &mut Vec<u8>, s: &Vec<u16>)
    ensures
        final(out)@ == old(out)@ + spec_enc_set(s@),
{
    write_varint(out, s.len() as u64);
    let ghost mid: Seq<u8> = out@;
    let mut i: usize = 0;
    while i < s.len()
        invariant
            i <= s@.len(),
            mid == old(out)@ + spec_varint(s@.len() as nat),
            out@ == mid + spec_enc_u16s(s@.take(i as int)),
        decreases s@.len() - i,
    {
        let ghost before: Seq<u16> = s@.take(i as int);
        write_u16(out, s[i]);
        proof {
            let now = s@.take(i + 1);
            assert(now =~= before.push(s@[i as int]));
            lemma_enc_u16s_push(before, s@[i as int]);
            assert(out@ =~= mid + spec_enc_u16s(now));
        }
        i = i + 1;
    }
    assert(s@.take(s@.len() as int) =~= s@);
}

/// Appending one id extends the byte image by that id's two bytes.
proof fn lemma_enc_u16s_push(s: Seq<u16>, v: u16)
    ensures
        spec_enc_u16s(s.push(v)) == spec_enc_u16s(s) + spec_u16_le(v),
    decreases s.len(),
{
    let whole = s.push(v);
    if s.len() == 0 {
        assert(whole.drop_first() =~= Seq::<u16>::empty());
        assert(spec_enc_u16s(Seq::<u16>::empty()) == Seq::<u8>::empty());
        assert(whole[0] == v);
        assert(spec_enc_u16s(whole) =~= spec_u16_le(v));
        assert(spec_enc_u16s(s) + spec_u16_le(v) =~= spec_u16_le(v));
    } else {
        assert(whole[0] == s[0]);
        assert(whole.drop_first() =~= s.drop_first().push(v));
        lemma_enc_u16s_push(s.drop_first(), v);
        assert(spec_enc_u16s(whole) =~= spec_enc_u16s(s) + spec_u16_le(v));
    }
}

/// Appending one entry extends the byte image by that entry's bytes.
proof fn lemma_enc_entries_push(t: Seq<(Seq<char>, Seq<u16>)>, key: Seq<char>, ids: Seq<u16>)
    ensures
        spec_enc_entries(t.push((key, ids))) == spec_enc_entries(t) + spec_string_enc(key)
            + spec_enc_set(ids),
    decreases t.len(),
{
    let whole = t.push((key, ids));
    if t.len() == 0 {
        assert(whole.drop_first() =~= Seq::<(Seq<char>, Seq<u16>)>::empty());
        assert(spec_enc_entries(Seq::<(Seq<char>, Seq<u16>)>::empty()) == Seq::<u8>::empty());
        assert(whole[0] == (key, ids));
        assert(spec_enc_entries(whole) =~= spec_string_enc(key) + spec_enc_set(ids));
        assert(spec_enc_entries(t) + spec_string_enc(key) + spec_enc_set(ids) =~= spec_string_enc(
            key,
        ) + spec_enc_set(ids));
    } else {
        assert(whole[0] == t[0]);
        assert(whole.drop_first() =~= t.drop_first().push((key, ids)));
        lemma_enc_entries_push(t.drop_first(), key, ids);
        assert(spec_enc_entries(whole) =~= spec_enc_entries(t) + spec_string_enc(key)
            + spec_enc_set(ids));
    }
}

/// Encode a [`Statistics`] tree.
pub fn encode_stats(st: &Statistics) -> (r: Vec<u8>)
    ensures
        r@ == spec_enc_stats(st@),
{
    let mut out: Vec<u8> = Vec::new();
    write_varint(&mut out, st.tree.len() as u64);
    let ghost mid: Seq<u8> = out@;
    let mut i: usize = 0;
    while i < st.tree.len()
        invariant
            i <= st.tree@.len(),
            mid == spec_varint(st.tree@.len() as nat),
            st@.len() == st.tree@.len(),
            forall|j: int| 0 <= j < st@.len() ==> #[trigger] st@[j] == (st.tree@[j].0@, st.tree@[j].1@),
            out@ == mid + spec_enc_entries(st@.take(i as int)),
        decreases st.tree@.len() - i,
    {
        let ghost before: Seq<(Seq<char>, Seq<u16>)> = st@.take(i as int);
        let entry: &(String, Vec<u16>) = &st.tree[i];
        write_string(&mut out, entry.0.as_str());
        write_set(&mut out, &entry.1);
        proof {
            let now = st@.take(i + 1);
            assert(st@[i as int] == (st.tree@[i as int].0@, st.tree@[i as int].1@));
            assert(now =~= before.push((entry.0@, entry.1@)));
            lemma_enc_entries_push(before, entry.0@, entry.1@);
            assert(out@ =~= mid + spec_enc_entries(now));
        }
        i = i + 1;
    }
    proof {
        assert(st@.take(st@.len() as int) =~= st@);
    }
    out
}

/// Read `n` ids.
fn read_u16s(bytes: &[u8], pos: usize, n: u64) -> (r: Result<(Vec<u16>, usize), DecodeError>)
    requires
        pos <= bytes@.len(),
    ensures
        (match (r, spec_read_u16s(bytes@, pos as int, n as nat)) {
            (Ok((v, end)), Ok((sv, se))) => v@ == sv && end as int == se
                && pos <= end <= bytes@.len(),
            (Err(a), Err(b)) => a == b,
            _ => false,
        }),
{
    let mut acc: Vec<u16> = Vec::new();
    let mut p: usize = pos;
    let mut i: u64 = 0;
    loop
        invariant
            pos <= p <= bytes@.len(),
            i <= n,
            acc@.len() == i,
            (match spec_read_u16s(bytes@, p as int, (n - i) as nat) {
                Ok((rest, e)) => spec_read_u16s(bytes@, pos as int, n as nat) == Ok::<
                    (Seq<u16>, int),
                    DecodeError,
                >((acc@ + rest, e)),
                Err(f) => spec_read_u16s(bytes@, pos as int, n as nat) == Err::<
                    (Seq<u16>, int),
                    DecodeError,
                >(f),
            }),
        decreases n - i,
    {
        if i == n {
            assert(acc@ + Seq::<u16>::empty() =~= acc@);
            return Ok((acc, p));
        }
        let (v, np): (u16, usize) = match read_u16(bytes, p) {
            Ok(x) => x,
            Err(e) => {
                return Err(e);
            },
        };
        let ghost old_acc = acc@;
        acc.push(v);
        proof {
            match spec_read_u16s(bytes@, np as int, (n - i - 1) as nat) {
                Ok((rest, e)) => {
                    assert(old_acc + (seq![v] + rest) =~= acc@ + rest);
                },
                Err(_) => {},
            }
        }
        p = np;
        i = i + 1;
    }
}

/// Read one id set.
fn read_set(bytes: &[u8], pos: usize) -> (r: Result<(Vec<u16>, usize), DecodeError>)
    requires
        pos <= bytes@.len(),
    ensures
        (match (r, spec_read_set(bytes@, pos as int)) {
            (Ok((v, end)), Ok((sv, se))) => v@ == sv && end as int == se
                && pos <= end <= bytes@.len(),
            (Err(a), Err(b)) => a == b,
            _ => false,
        }),
{
    let (n, p): (u64, usize) = match read_varint(bytes, pos) {
        Ok(x) => x,
        Err(_) => {
            return Err(DecodeError::TruncatedInput);
        },
    };
    proof {
        lemma_read_varint_from_bound(bytes@, pos as int, 0);
    }
    read_u16s(bytes, p, n)
}

/// Read `n` entries.
fn read_entries(bytes: &[u8], pos: usize, n: u64) -> (r: Result<
    (Vec<(String, Vec<u16>)>, usize),
    DecodeError,
>)
    requires
        pos <= bytes@.len(),
    ensures
        (match (r, spec_read_entries(bytes@, pos as int, n as nat)) {
            (Ok((v, end)), Ok((sv, se))) => v@.map_values(
                |entry: (String, Vec<u16>)| (entry.0@, entry.1@),
            ) == sv && end as int == se && pos <= end <= bytes@.len(),
            (Err(a), Err(b)) => a == b,
            _ => false,
        }),
{
    let mut acc: Vec<(String, Vec<u16>)> = Vec::new();
    let mut p: usize = pos;
    let mut i: u64 = 0;
    loop
        invariant
            pos <= p <= bytes@.len(),
            i <= n,
            acc@.len() == i,
            (match spec_read_entries(bytes@, p as int, (n - i) as nat) {
                Ok((rest, e)) => spec_read_entries(bytes@, pos as int, n as nat) == Ok::<
                    (Seq<(Seq<char>, Seq<u16>)>, int),
                    DecodeError,
                >((acc@.map_values(|entry: (String, Vec<u16>)| (entry.0@, entry.1@)) + rest, e)),
                Err(f) => spec_read_entries(bytes@, pos as int, n as nat) == Err::<
                    (Seq<(Seq<char>, Seq<u16>)>, int),
                    DecodeError,
                >(f),
            }),
        decreases n - i,
    {
        let ghost view_of = |entry: (String, Vec<u16>)| (entry.0@, entry.1@);
        if i == n {
            assert(acc@.map_values(view_of) + Seq::<(Seq<char>, Seq<u16>)>::empty()
                =~= acc@.map_values(view_of));
            return Ok((acc, p));
        }
        let (key, pk): (String, usize) = match read_string(bytes, p) {
            Ok(x) => x,
            Err(e) => {
                return Err(e);
            },
        };
        proof {
            lemma_read_varint_from_bound(bytes@, p as int, 0);
        }
        let (ids, ps): (Vec<u16>, usize) = match read_set(bytes, pk) {
            Ok(x) => x,
            Err(e) => {
                return Err(e);
            },
        };
        let ghost old_acc = acc@;
        acc.push((key, ids));
        proof {
            assert(acc@.map_values(view_of) =~= old_acc.map_values(view_of).push(
                (acc@.last().0@, acc@.last().1@),
            ));
            match spec_read_entries(bytes@, ps as int, (n - i - 1) as nat) {
                Ok((rest, e)) => {
                    assert(old_acc.map_values(view_of) + (seq![
                        (acc@.last().0@, acc@.last().1@),
                    ] + rest) =~= acc@.map_values(view_of) + rest);
                },
                Err(_) => {},
            }
        }
        p = ps;
        i = i + 1;
    }
}

/// Parsing the images of `n` ids laid down at `pos` yields them back.
proof fn lemma_read_u16s_at(bytes: Seq<u8>, pos: int, s: Seq<u16>)
    requires
        0 <= pos,
        pos + spec_enc_u16s(s).len() <= bytes.len(),
        bytes.subrange(pos, pos + spec_enc_u16s(s).len() as int) == spec_enc_u16s(s),
    ensures
        spec_read_u16s(bytes, pos, s.len() as nat) == Ok::<(Seq<u16>, int), DecodeError>(
            (s, pos + spec_enc_u16s(s).len()),
        ),
    decreases s.len(),
{
    let enc = spec_enc_u16s(s);
    if s.len() == 0 {
        assert(s =~= Seq::<u16>::empty());
    } else {
        let rest = s.drop_first();
        lemma_subrange_of_matching(bytes, pos, enc, 0, 2);
        assert(enc.subrange(0, 2) =~= spec_u16_le(s[0]));
        lemma_read_u16_at(bytes, pos, s[0]);
        lemma_subrange_of_matching(bytes, pos, enc, 2, enc.len() as int);
        assert(enc.subrange(2, enc.len() as int) =~= spec_enc_u16s(rest));
        lemma_read_u16s_at(bytes, pos + 2, rest);
        assert(seq![s[0]] + rest =~= s);
    }
}

/// Parsing the image of one id set laid down at `pos` yields it back.
proof fn lemma_read_set_at(bytes: Seq<u8>, pos: int, s: Seq<u16>)
    requires
        0 <= pos,
        s.len() < 0x1_0000_0000_0000_0000,
        pos + spec_enc_set(s).len() <= bytes.len(),
        bytes.subrange(pos, pos + spec_enc_set(s).len() as int) == spec_enc_set(s),
    ensures
        spec_read_set(bytes, pos) == Ok::<(Seq<u16>, int), DecodeError>(
            (s, pos + spec_enc_set(s).len()),
        ),
{
    let enc = spec_enc_set(s);
    let venc = spec_varint(s.len() as nat);
    lemma_subrange_of_matching(bytes, pos, enc, 0, venc.len() as int);
    assert(enc.subrange(0, venc.len() as int) =~= venc);
    lemma_read_varint_at(bytes, pos, s.len() as nat);
    lemma_subrange_of_matching(bytes, pos, enc, venc.len() as int, enc.len() as int);
    assert(enc.subrange(venc.len() as int, enc.len() as int) =~= spec_enc_u16s(s));
    lemma_read_u16s_at(bytes, pos + venc.len(), s);
}

/// Parsing the images of `n` entries laid down at `pos` yields them back.
proof fn lemma_read_entries_at(bytes: Seq<u8>, pos: int, t: Seq<(Seq<char>, Seq<u16>)>)
    requires
        0 <= pos,
        forall|i: int|
            0 <= i < t.len() ==> vstd::utf8::encode_utf8(#[trigger] t[i].0).len()
                < 0x1_0000_0000_0000_0000 && t[i].1.len() < 0x1_0000_0000_0000_0000,
        pos + spec_enc_entries(t).len() <= bytes.len(),
        bytes.subrange(pos, pos + spec_enc_entries(t).len() as int) == spec_enc_entries(t),
    ensures
        spec_read_entries(bytes, pos, t.len() as nat) == Ok::<
            (Seq<(Seq<char>, Seq<u16>)>, int),
            DecodeError,
        >((t, pos + spec_enc_entries(t).len())),
    decreases t.len(),
{
    let enc = spec_enc_entries(t);
    if t.len() == 0 {
        assert(t =~= Seq::<(Seq<char>, Seq<u16>)>::empty());
    } else {
        let key = t[0].0;
        let ids = t[0].1;
        let rest = t.drop_first();
        let a = spec_string_enc(key).len() as int;
        let b = spec_enc_set(ids).len() as int;
        lemma_subrange_of_matching(bytes, pos, enc, 0, a);
        assert(enc.subrange(0, a) =~= spec_string_enc(key));
        lemma_read_string_at(bytes, pos, key);
        lemma_subrange_of_matching(bytes, pos, enc, a, a + b);
        assert(enc.subrange(a, a + b) =~= spec_enc_set(ids));
        lemma_read_set_at(bytes, pos + a, ids);
        lemma_subrange_of_matching(bytes, pos, enc, a + b, enc.len() as int);
        assert(enc.subrange(a + b, enc.len() as int) =~= spec_enc_entries(rest));
        assert(forall|i: int| 0 <= i < rest.len() ==> #[trigger] rest[i] == t[i + 1]);
        lemma_read_entries_at(bytes, pos + a + b, rest);
        assert(seq![(key, ids)] + rest =~= t);
    }
}

/// A successful id-list parse stays within the buffer.
proof fn lemma_read_u16s_bound(bytes: Seq<u8>, pos: int, n: nat)
    requires
        pos <= bytes.len(),
        spec_read_u16s(bytes, pos, n) is Ok,
    ensures
        pos <= spec_read_u16s(bytes, pos, n)->Ok_0.1 <= bytes.len(),
    decreases n,
{
    if n > 0 {
        lemma_read_u16s_bound(bytes, pos + 2, (n - 1) as nat);
    }
}

/// A successful set parse consumes at least one byte and stays within the
/// buffer.
proof fn lemma_read_set_bound(bytes: Seq<u8>, pos: int)
    requires
        spec_read_set(bytes, pos) is Ok,
    ensures
        pos < spec_read_set(bytes, pos)->Ok_0.1 <= bytes.len(),
{
    lemma_read_varint_from_bound(bytes, pos, 0);
    let (n, p) = spec_read_varint(bytes, pos)->Ok_0;
    lemma_read_u16s_bound(bytes, p, n);
}

/// A successful entry-list parse stays within the buffer.
proof fn lemma_read_entries_bound(bytes: Seq<u8>, pos: int, n: nat)
    requires
        pos <= bytes.len(),
        spec_read_entries(bytes, pos, n) is Ok,
    ensures
        pos <= spec_read_entries(bytes, pos, n)->Ok_0.1 <= bytes.len(),
    decreases n,
{
    if n > 0 {
        lemma_read_varint_from_bound(bytes, pos, 0);
        let (key, pk) = spec_read_string(bytes, pos)->Ok_0;
        lemma_read_set_bound(bytes, pk);
        let (ids, ps) = spec_read_set(bytes, pk)->Ok_0;
        lemma_read_entries_bound(bytes, ps, (n - 1) as nat);
    }
}

/// Truncation behaviour of the id-list parser under a shorter buffer.
proof fn lemma_read_u16s_take(bytes: Seq<u8>, k: int, pos: int, n: nat)
    requires
        0 <= pos <= k <= bytes.len(),
        spec_read_u16s(bytes, pos, n) is Ok,
    ensures
        spec_read_u16s(bytes, pos, n)->Ok_0.1 <= k ==> spec_read_u16s(bytes.take(k), pos, n)
            == spec_read_u16s(bytes, pos, n),
        spec_read_u16s(bytes, pos, n)->Ok_0.1 > k ==> spec_read_u16s(bytes.take(k), pos, n)
            == Err::<(Seq<u16>, int), DecodeError>(DecodeError::TruncatedInput),
    decreases n,
{
    if n > 0 {
        crate::wire::lemma_read_u16_take(bytes, k, pos);
        lemma_read_u16s_bound(bytes, pos + 2, (n - 1) as nat);
        if pos + 2 <= k {
            lemma_read_u16s_take(bytes, k, pos + 2, (n - 1) as nat);
        }
    }
}

/// Truncation behaviour of the set parser under a shorter buffer.
proof fn lemma_read_set_take(bytes: Seq<u8>, k: int, pos: int)
    requires
        0 <= pos <= k <= bytes.len(),
        spec_read_set(bytes, pos) is Ok,
    ensures
        spec_read_set(bytes, pos)->Ok_0.1 <= k ==> spec_read_set(bytes.take(k), pos)
            == spec_read_set(bytes, pos),
        spec_read_set(bytes, pos)->Ok_0.1 > k ==> spec_read_set(bytes.take(k), pos) == Err::<
            (Seq<u16>, int),
            DecodeError,
        >(DecodeError::TruncatedInput),
{
    crate::wire::lemma_read_varint_take(bytes, k, pos);
    lemma_read_varint_from_bound(bytes, pos, 0);
    let (n, p) = spec_read_varint(bytes, pos)->Ok_0;
    lemma_read_u16s_bound(bytes, p, n);
    if p <= k {
        lemma_read_u16s_take(bytes, k, p, n);
    }
}

/// Truncation behaviour of the entry-list parser under a shorter buffer.
proof fn lemma_read_entries_take(bytes: Seq<u8>, k: int, pos: int, n: nat)
    requires
        0 <= pos <= k <= bytes.len(),
        spec_read_entries(bytes, pos, n) is Ok,
    ensures
        spec_read_entries(bytes, pos, n)->Ok_0.1 <= k ==> spec_read_entries(bytes.take(k), pos, n)
            == spec_read_entries(bytes, pos, n),
        spec_read_entries(bytes, pos, n)->Ok_0.1 > k ==> spec_read_entries(bytes.take(k), pos, n)
            == Err::<(Seq<(Seq<char>, Seq<u16>)>, int), DecodeError>(DecodeError::TruncatedInput),
    decreases n,
{
    if n > 0 {
        crate::wire::lemma_read_string_take(bytes, k, pos);
        lemma_read_varint_from_bound(bytes, pos, 0);
        let (key, pk) = spec_read_string(bytes, pos)->Ok_0;
        lemma_read_set_bound(bytes, pk);
        let (ids, ps) = spec_read_set(bytes, pk)->Ok_0;
        lemma_read_entries_bound(bytes, ps, (n - 1) as nat);
        if pk <= k {
            lemma_read_set_take(bytes, k, pk);
            if ps <= k {
                lemma_read_entries_take(bytes, k, ps, (n - 1) as nat);
            }
        }
    }
}

/// Truncation detection for statistics trees: every strict prefix of an
/// encoded tree fails to decode with `TruncatedInput`, never yielding a
/// partial snapshot.
pub proof fn lemma_stats_truncation(t: Seq<(Seq<char>, Seq<u16>)>, k: int)
    requires
        t.len() < 0x1_0000_0000_0000_0000,
        forall|i: int|
            0 <= i < t.len() ==> vstd::utf8::encode_utf8(#[trigger] t[i].0).len()
                < 0x1_0000_0000_0000_0000 && t[i].1.len() < 0x1_0000_0000_0000_0000,
        0 <= k < spec_enc_stats(t).len(),
    ensures
        spec_decode_stats(spec_enc_stats(t).take(k)) == Err::<
            Seq<(Seq<char>, Seq<u16>)>,
            DecodeError,
        >(DecodeError::TruncatedInput),
{
    let enc = spec_enc_stats(t);
    let venc = spec_varint(t.len() as nat);
    assert(enc.subrange(0, enc.len() as int) =~= enc);
    lemma_subrange_of_matching(enc, 0, enc, 0, venc.len() as int);
    assert(enc.subrange(0, venc.len() as int) =~= venc);
    lemma_read_varint_at(enc, 0, t.len() as nat);
    lemma_subrange_of_matching(enc, 0, enc, venc.len() as int, enc.len() as int);
    assert(enc.subrange(venc.len() as int, enc.len() as int) =~= spec_enc_entries(t));
    lemma_read_entries_at(enc, venc.len() as int, t);
    crate::wire::lemma_read_varint_take(enc, k, 0);
    lemma_read_entries_bound(enc, venc.len() as int, t.len() as nat);
    if venc.len() <= k {
        lemma_read_entries_take(enc, k, venc.len() as int, t.len() as nat);
    }
}

/// Round trip: decoding the encoding of any statistics tree yields it back,
/// entry for entry; in particular every well-formed tree survives the
/// codec unchanged. Entry counts, id counts and identifier bytes are
/// bounded by the machine limit on lengths, as every tree in memory is.
pub proof fn lemma_stats_round_trip(t: Seq<(Seq<char>, Seq<u16>)>)
    requires
        t.len() < 0x1_0000_0000_0000_0000,
        forall|i: int|
            0 <= i < t.len() ==> vstd::utf8::encode_utf8(#[trigger] t[i].0).len()
                < 0x1_0000_0000_0000_0000 && t[i].1.len() < 0x1_0000_0000_0000_0000,
    ensures
        spec_decode_stats(spec_enc_stats(t)) == Ok::<Seq<(Seq<char>, Seq<u16>)>, DecodeError>(t),
{
    let enc = spec_enc_stats(t);
    let venc = spec_varint(t.len() as nat);
    assert(enc.subrange(0, enc.len() as int) =~= enc);
    lemma_subrange_of_matching(enc, 0, enc, 0, venc.len() as int);
    assert(enc.subrange(0, venc.len() as int) =~= venc);
    lemma_read_varint_at(enc, 0, t.len() as nat);
    lemma_subrange_of_matching(enc, 0, enc, venc.len() as int, enc.len() as int);
    assert(enc.subrange(venc.len() as int, enc.len() as int) =~= spec_enc_entries(t));
    lemma_read_entries_at(enc, venc.len() as int, t);
}

/// Determinism for statistics trees: the bytes are a function of the tree
/// alone, so two encodings of the same snapshot are identical.
pub proof fn lemma_stats_encode_deterministic(
    t: Seq<(Seq<char>, Seq<u16>)>,
    b1: Seq<u8>,
    b2: Seq<u8>,
)
    requires
        b1 == spec_enc_stats(t),
        b2 == spec_enc_stats(t),
    ensures
        b1 == b2,
{
}

/// Decode a whole buffer as one [`Statistics`] tree. The entries are taken
/// exactly as they stand in the buffer; the canonical encoding of a
/// well-formed tree lists them in ascending key order, and decoding such an
/// encoding yields the well-formed tree back.
pub fn decode_stats(bytes: &[u8]) -> (r: Result<Statistics, DecodeError>)
    ensures
        (match (r, spec_decode_stats(bytes@)) {
            (Ok(st), Ok(sv)) => st@ == sv,
            (Err(a), Err(b)) => a == b,
            _ => false,
        }),
{
    let (n, p): (u64, usize) = match read_varint(bytes, 0) {
        Ok(x) => x,
        Err(_) => {
            return Err(DecodeError::TruncatedInput);
        },
    };
    proof {
        lemma_read_varint_from_bound(bytes@, 0, 0);
    }
    match read_entries(bytes, p, n) {
        Ok((tree, end)) => if end == bytes.len() {
            Ok(Statistics { tree })
        } else {
            Err(DecodeError::TrailingBytes)
        },
        Err(e) => Err(e),
    }
}

} // verus!
