//! Wire primitives of the binary codec.
//!
//! Fixed-size fields are little-endian: `u16` on 2 bytes, `u32` (and the bit
//! pattern of a 32-bit float) on 4 bytes. Enum discriminants and lengths use
//! a compact variable-length unsigned encoding: 7 payload bits per byte,
//! least significant group first, high bit set on every byte but the last.
//! Strings are a compact length prefix followed by the raw UTF-8 bytes.
//!
//! Every encoder is specified by a spec-level byte-sequence function and
//! every reader by a spec-level parser; the laws relating the two (round
//! trip, truncation detection) are proved below.

use vstd::prelude::*;
use crate::DecodeError;

verus! {

broadcast use vstd::seq_lib::group_seq_lib_default, vstd::seq::group_seq_axioms;

/// Why reading a raw variable-length integer failed: the buffer ended inside
/// it, or its value does not fit in 64 bits (including over-long encodings
/// of ten bytes whose last byte exceeds 1).
#[derive(Debug, Clone, Copy, PartialEq, Eq, Structural)]
pub enum VarintFault {
    Truncated,
    TooLarge,
}

/// 128 to the power `k`.
pub open spec fn pow128(k: nat) -> nat
    decreases k,
{
    if k == 0 {
        1
    } else {
        128 * pow128((k - 1) as nat)
    }
}

proof fn lemma_pow128_mono(a: nat, b: nat)
    requires
        a <= b,
    ensures
        pow128(a) <= pow128(b),
    decreases b,
{
    if a < b {
        lemma_pow128_mono(a, (b - 1) as nat);
        assert(pow128(b) == 128 * pow128((b - 1) as nat));
        assert(pow128((b - 1) as nat) <= 128 * pow128((b - 1) as nat)) by (nonlinear_arith);
    }
}

proof fn lemma_pow128_vals()
    ensures
        pow128(8) == 0x100_0000_0000_0000,
        pow128(9) == 0x8000_0000_0000_0000,
{
    assert(pow128(0) == 1);
    assert(pow128(1) == 128);
    assert(pow128(2) == 0x4000);
    assert(pow128(3) == 0x20_0000);
    assert(pow128(4) == 0x1000_0000);
    assert(pow128(5) == 0x8_0000_0000);
    assert(pow128(6) == 0x400_0000_0000);
    assert(pow128(7) == 0x2_0000_0000_0000);
    assert(pow128(8) == 0x100_0000_0000_0000);
    assert(pow128(9) == 0x8000_0000_0000_0000);
}

/// The compact variable-length encoding of an unsigned integer.
pub open spec fn spec_varint(n: nat) -> Seq<u8>
    decreases n,
{
    if n < 128 {
        seq![n as u8]
    } else {
        seq![(128 + n % 128) as u8] + spec_varint(n / 128)
    }
}

/// Parse a variable-length integer whose `idx` low groups of 7 bits have
/// already been consumed. At most ten bytes are read in all, and the tenth
/// may only be 0 or 1, so every accepted value fits in 64 bits.
pub open spec fn spec_read_varint_from(bytes: Seq<u8>, pos: int, idx: nat) -> Result<
    (nat, int),
    VarintFault,
>
    decreases 10 - idx,
{
    if pos < 0 || pos >= bytes.len() {
        Err(VarintFault::Truncated)
    } else {
        let b = bytes[pos];
        if idx >= 9 {
            if b > 1 {
                Err(VarintFault::TooLarge)
            } else {
                Ok((b as nat, pos + 1))
            }
        } else if b < 128 {
            Ok((b as nat, pos + 1))
        } else {
            match spec_read_varint_from(bytes, pos + 1, idx + 1) {
                Ok((v, end)) => Ok(((b - 128) as nat + 128 * v, end)),
                Err(f) => Err(f),
            }
        }
    }
}

/// Parse a variable-length integer at `pos`.
pub open spec fn spec_read_varint(bytes: Seq<u8>, pos: int) -> Result<(nat, int), VarintFault> {
    spec_read_varint_from(bytes, pos, 0)
}

/// Any value a variable-length parse can yield fits in 64 bits, and the
/// parse ends after at least one byte and within the buffer.
pub proof fn lemma_read_varint_from_bound(bytes: Seq<u8>, pos: int, idx: nat)
    requires
        idx <= 9,
        spec_read_varint_from(bytes, pos, idx) is Ok,
    ensures
        spec_read_varint_from(bytes, pos, idx)->Ok_0.0 <= 2 * pow128((9 - idx) as nat) - 1,
        pos < spec_read_varint_from(bytes, pos, idx)->Ok_0.1 <= bytes.len(),
    decreases 10 - idx,
{
    let b = bytes[pos];
    if idx >= 9 || b < 128 {
        assert(1 <= pow128((9 - idx) as nat)) by {
            lemma_pow128_mono(0, (9 - idx) as nat);
        }
        if idx < 9 {
            assert(b < 128);
            assert(128 <= pow128((9 - idx) as nat)) by {
                lemma_pow128_mono(1, (9 - idx) as nat);
            }
        }
    } else {
        lemma_read_varint_from_bound(bytes, pos + 1, idx + 1);
        let v = spec_read_varint_from(bytes, pos + 1, idx + 1)->Ok_0.0;
        let p = pow128((8 - idx) as nat);
        assert(v <= 2 * p - 1);
        assert(pow128((9 - idx) as nat) == 128 * p);
        assert(128 * v <= 128 * (2 * p - 1));
        assert((b - 128) as nat + 128 * v <= 127 + 128 * (2 * p - 1));
    }
}

/// Write a value in the compact variable-length encoding.
pub fn write_varint(out: &mut Vec<u8>, n: u64)
    ensures
        final(out)@ == old(out)@ + spec_varint(n as nat),
{
    let ghost full: Seq<u8> = old(out)@ + spec_varint(n as nat);
    let mut m: u64 = n;
    loop
        invariant_except_break
            out@ + spec_varint(m as nat) == full,
        ensures
            out@ == full,
        decreases m,
    {
        if m < 128 {
            out.push(m as u8);
            assert(out@ =~= full);
            break;
        } else {
            out.push((128 + (m % 128)) as u8);
            proof {
                assert(spec_varint(m as nat) == seq![(128 + m as nat % 128) as u8] + spec_varint(
                    m as nat / 128,
                ));
                assert(out@ + spec_varint((m / 128) as nat) =~= full);
            }
            m = m / 128;
        }
    }
}

/// Read a compact variable-length integer at `pos`.
pub fn read_varint(bytes: &[u8], pos: usize) -> (r: Result<(u64, usize), VarintFault>)
    requires
        pos <= bytes@.len(),
    ensures
        (match (r, spec_read_varint(bytes@, pos as int)) {
            (Ok((v, end)), Ok((sv, se))) => v as nat == sv && end as int == se,
            (Err(a), Err(b)) => a == b,
            _ => false,
        }),
{
    let ghost orig = spec_read_varint(bytes@, pos as int);
    let mut p: usize = pos;
    let mut idx: usize = 0;
    let mut acc: u64 = 0;
    let mut mult: u64 = 1;
    loop
        invariant
            pos <= p <= bytes@.len(),
            p == pos + idx,
            idx <= 9,
            mult == pow128(idx as nat),
            acc < mult,
            orig == spec_read_varint(bytes@, pos as int),
            (match spec_read_varint_from(bytes@, p as int, idx as nat) {
                Ok((v, end)) => orig == Ok::<(nat, int), VarintFault>(
                    (acc as nat + (mult as nat) * v, end),
                ),
                Err(f) => orig == Err::<(nat, int), VarintFault>(f),
            }),
        decreases 10 - idx,
    {
        proof {
            lemma_pow128_vals();
            lemma_pow128_mono(idx as nat, 9);
            if idx <= 8 {
                lemma_pow128_mono(idx as nat, 8);
            }
        }
        if p == bytes.len() {
            return Err(VarintFault::Truncated);
        }
        let b: u8 = bytes[p];
        if idx == 9 {
            if b > 1 {
                return Err(VarintFault::TooLarge);
            }
            assert((b as u64) * mult <= mult) by (nonlinear_arith)
                requires b <= 1, mult >= 1;
            let chunk: u64 = (b as u64) * mult;
            assert(acc as nat + (mult as nat) * (b as nat) == (acc + chunk) as nat)
                by (nonlinear_arith)
                requires chunk == (b as u64) * mult, acc + chunk <= u64::MAX;
            return Ok((acc + chunk, p + 1));
        }
        if b < 128 {
            assert((b as u64) * mult <= 127 * mult) by (nonlinear_arith)
                requires b < 128, mult >= 1;
            let chunk: u64 = (b as u64) * mult;
            assert(acc as nat + (mult as nat) * (b as nat) == (acc + chunk) as nat)
                by (nonlinear_arith)
                requires chunk == (b as u64) * mult, acc + chunk <= u64::MAX;
            return Ok((acc + chunk, p + 1));
        }
        let ghost old_acc = acc;
        let ghost old_mult = mult;
        assert(((b - 128) as u64) * mult <= 127 * mult) by (nonlinear_arith)
            requires 128 <= b < 256, mult >= 1;
        acc = acc + ((b - 128) as u64) * mult;
        mult = mult * 128;
        idx = idx + 1;
        p = p + 1;
        proof {
            assert(mult == pow128(idx as nat));
            assert(acc < mult) by (nonlinear_arith)
                requires
                    old_acc < old_mult,
                    acc == old_acc + ((b - 128) as u64) * old_mult,
                    mult == old_mult * 128,
                    128 <= b < 256,
            ;
            match spec_read_varint_from(bytes@, p as int, idx as nat) {
                Ok((v, end)) => {
                    assert(spec_read_varint_from(bytes@, (p - 1) as int, (idx - 1) as nat)
                        == Ok::<(nat, int), VarintFault>(((b - 128) as nat + 128 * v, end)));
                    assert(old_acc as nat + (old_mult as nat) * ((b - 128) as nat + 128 * v)
                        == acc as nat + (mult as nat) * v) by (nonlinear_arith)
                        requires
                            acc as nat == old_acc as nat + ((b - 128) as nat) * (old_mult as nat),
                            mult as nat == (old_mult as nat) * 128,
                            128 <= b < 256,
                    ;
                },
                Err(_) => {},
            }
        }
    }
}

/// Parsing the compact encoding of `n` laid down at `pos` yields `n` back and
/// stops right after it.
pub proof fn lemma_read_varint_at(bytes: Seq<u8>, pos: int, n: nat)
    requires
        n < 0x1_0000_0000_0000_0000,
        0 <= pos,
        pos + spec_varint(n).len() <= bytes.len(),
        bytes.subrange(pos, pos + spec_varint(n).len() as int) == spec_varint(n),
    ensures
        spec_read_varint(bytes, pos) == Ok::<(nat, int), VarintFault>(
            (n, pos + spec_varint(n).len()),
        ),
{
    lemma_pow128_vals();
    lemma_read_varint_at_from(bytes, pos, 0, n);
}

proof fn lemma_read_varint_at_from(bytes: Seq<u8>, pos: int, idx: nat, n: nat)
    requires
        idx <= 9,
        n < 2 * pow128((9 - idx) as nat),
        0 <= pos,
        pos + spec_varint(n).len() <= bytes.len(),
        bytes.subrange(pos, pos + spec_varint(n).len() as int) == spec_varint(n),
    ensures
        spec_read_varint_from(bytes, pos, idx) == Ok::<(nat, int), VarintFault>(
            (n, pos + spec_varint(n).len()),
        ),
    decreases n,
{
    let enc = spec_varint(n);
    assert(bytes[pos] == enc[0]);
    if n < 128 {
        assert(enc =~= seq![n as u8]);
        if idx >= 9 {
            assert(pow128(0) == 1);
            assert(n < 2);
        }
    } else {
        assert(idx < 9) by {
            if idx >= 9 {
                assert(pow128(0) == 1);
            }
        }
        let tail = spec_varint(n / 128);
        assert(enc == seq![(128 + n % 128) as u8] + tail);
        assert(bytes[pos] == (128 + n % 128) as u8);
        assert(bytes.subrange(pos + 1, pos + 1 + tail.len() as int) =~= tail) by {
            assert forall|i: int| 0 <= i < tail.len() implies bytes[pos + 1 + i] == tail[i] by {
                assert(enc[i + 1] == tail[i]);
                assert(bytes.subrange(pos, pos + enc.len() as int)[i + 1] == enc[i + 1]);
            }
        }
        assert(n / 128 < 2 * pow128((8 - idx) as nat)) by (nonlinear_arith)
            requires
                n < 2 * pow128((9 - idx) as nat),
                pow128((9 - idx) as nat) == 128 * pow128((8 - idx) as nat),
        ;
        lemma_read_varint_at_from(bytes, pos + 1, idx + 1, n / 128);
        assert((128 + n % 128) - 128 + 128 * (n / 128) == n);
        assert(pos + 1 + tail.len() == pos + enc.len());
    }
}

/// Cutting the buffer short at `k` leaves a variable-length parse that ended
/// by `k` unchanged, and turns one that ended beyond `k` into a truncation.
pub proof fn lemma_read_varint_take(bytes: Seq<u8>, k: int, pos: int)
    requires
        0 <= pos <= k <= bytes.len(),
        spec_read_varint(bytes, pos) is Ok,
    ensures
        spec_read_varint(bytes, pos)->Ok_0.1 <= k ==> spec_read_varint(bytes.take(k), pos)
            == spec_read_varint(bytes, pos),
        spec_read_varint(bytes, pos)->Ok_0.1 > k ==> spec_read_varint(bytes.take(k), pos)
            == Err::<(nat, int), VarintFault>(VarintFault::Truncated),
{
    lemma_read_varint_take_from(bytes, k, pos, 0);
}

proof fn lemma_read_varint_take_from(bytes: Seq<u8>, k: int, pos: int, idx: nat)
    requires
        idx <= 9,
        0 <= pos <= k <= bytes.len(),
        spec_read_varint_from(bytes, pos, idx) is Ok,
    ensures
        spec_read_varint_from(bytes, pos, idx)->Ok_0.1 <= k ==> spec_read_varint_from(
            bytes.take(k),
            pos,
            idx,
        ) == spec_read_varint_from(bytes, pos, idx),
        spec_read_varint_from(bytes, pos, idx)->Ok_0.1 > k ==> spec_read_varint_from(
            bytes.take(k),
            pos,
            idx,
        ) == Err::<(nat, int), VarintFault>(VarintFault::Truncated),
    decreases 10 - idx,
{
    lemma_read_varint_from_bound(bytes, pos, idx);
    let b = bytes[pos];
    if pos < k {
        assert(bytes.take(k)[pos] == b);
    }
    let cut = bytes.take(k);
    assert(cut.len() == k);
    if idx >= 9 || b < 128 {
        let e = spec_read_varint_from(bytes, pos, idx)->Ok_0.1;
        assert(e == pos + 1);
        if e <= k {
            assert(cut[pos] == b);
            assert(spec_read_varint_from(cut, pos, idx) == spec_read_varint_from(bytes, pos, idx));
        } else {
            assert(spec_read_varint_from(cut, pos, idx) == Err::<(nat, int), VarintFault>(
                VarintFault::Truncated,
            ));
        }
    } else {
        if k >= pos + 1 {
            lemma_read_varint_take_from(bytes, k, pos + 1, idx + 1);
            let inner = spec_read_varint_from(bytes, pos + 1, idx + 1);
            assert(inner is Ok);
            let (v, e) = inner->Ok_0;
            assert(spec_read_varint_from(bytes, pos, idx) == Ok::<(nat, int), VarintFault>(
                ((b - 128) as nat + 128 * v, e),
            ));
            if e <= k {
                assert(spec_read_varint_from(cut, pos + 1, idx + 1) == inner);
                assert(spec_read_varint_from(cut, pos, idx) == Ok::<(nat, int), VarintFault>(
                    ((b - 128) as nat + 128 * v, e),
                ));
            } else {
                assert(spec_read_varint_from(cut, pos + 1, idx + 1) == Err::<
                    (nat, int),
                    VarintFault,
                >(VarintFault::Truncated));
            }
        }
    }
}

/// Parse an enum discriminant: a compact variable-length integer whose
/// faults are decode errors. A discriminant too large for 64 bits exceeds
/// every variant count, so it is an invalid discriminant.
pub open spec fn spec_read_tag(bytes: Seq<u8>, pos: int) -> Result<(nat, int), DecodeError> {
    match spec_read_varint(bytes, pos) {
        Ok((n, p)) => Ok((n, p)),
        Err(VarintFault::Truncated) => Err(DecodeError::TruncatedInput),
        Err(VarintFault::TooLarge) => Err(DecodeError::InvalidDiscriminant),
    }
}

/// Read an enum discriminant.
pub fn read_tag(bytes: &[u8], pos: usize) -> (r: Result<(u64, usize), DecodeError>)
    requires
        pos <= bytes@.len(),
    ensures
        (match (r, spec_read_tag(bytes@, pos as int)) {
            (Ok((v, end)), Ok((sv, se))) => v as nat == sv && end as int == se,
            (Err(a), Err(b)) => a == b,
            _ => false,
        }),
        r matches Ok((v, end)) ==> pos < end <= bytes@.len(),
{
    proof {
        if spec_read_varint(bytes@, pos as int) is Ok {
            lemma_read_varint_from_bound(bytes@, pos as int, 0);
        }
    }
    match read_varint(bytes, pos) {
        Ok((v, end)) => Ok((v, end)),
        Err(VarintFault::Truncated) => Err(DecodeError::TruncatedInput),
        Err(VarintFault::TooLarge) => Err(DecodeError::InvalidDiscriminant),
    }
}

/// The little-endian 2-byte image of a 16-bit integer.
pub open spec fn spec_u16_le(n: u16) -> Seq<u8> {
    seq![(n & 0xff) as u8, ((n >> 8) & 0xff) as u8]
}

/// Parse a little-endian 16-bit integer.
pub open spec fn spec_read_u16(bytes: Seq<u8>, pos: int) -> Result<(u16, int), DecodeError> {
    if 0 <= pos && pos + 2 <= bytes.len() {
        Ok(((bytes[pos] as u16) | ((bytes[pos + 1] as u16) << 8), pos + 2))
    } else {
        Err(DecodeError::TruncatedInput)
    }
}

/// Write a 16-bit integer in little-endian order.
pub fn write_u16(out: &mut Vec<u8>, n: u16)
    ensures
        final(out)@ == old(out)@ + spec_u16_le(n),
{
    out.push((n & 0xff) as u8);
    out.push(((n >> 8) & 0xff) as u8);
    assert(out@ =~= old(out)@ + spec_u16_le(n));
}

/// Read a little-endian 16-bit integer.
pub fn read_u16(bytes: &[u8], pos: usize) -> (r: Result<(u16, usize), DecodeError>)
    requires
        pos <= bytes@.len(),
    ensures
        (match (r, spec_read_u16(bytes@, pos as int)) {
            (Ok((v, end)), Ok((sv, se))) => v == sv && end as int == se,
            (Err(a), Err(b)) => a == b,
            _ => false,
        }),
{
    if bytes.len() - pos >= 2 {
        let b0: u8 = bytes[pos];
        let b1: u8 = bytes[pos + 1];
        Ok(((b0 as u16) | ((b1 as u16) << 8), pos + 2))
    } else {
        Err(DecodeError::TruncatedInput)
    }
}

/// Parsing the little-endian image of `n` laid down at `pos` yields `n`.
pub proof fn lemma_read_u16_at(bytes: Seq<u8>, pos: int, n: u16)
    requires
        0 <= pos,
        pos + 2 <= bytes.len(),
        bytes.subrange(pos, pos + 2) == spec_u16_le(n),
    ensures
        spec_read_u16(bytes, pos) == Ok::<(u16, int), DecodeError>((n, pos + 2)),
{
    assert(bytes[pos] == (n & 0xff) as u8);
    assert(bytes[pos + 1] == ((n >> 8) & 0xff) as u8);
    assert((((n & 0xff) as u8) as u16) | (((((n >> 8) & 0xff) as u8) as u16) << 8) == n)
        by (bit_vector);
}

/// Truncation behaviour of the 16-bit parser under a shorter buffer.
pub proof fn lemma_read_u16_take(bytes: Seq<u8>, k: int, pos: int)
    requires
        0 <= pos <= k <= bytes.len(),
        spec_read_u16(bytes, pos) is Ok,
    ensures
        spec_read_u16(bytes, pos)->Ok_0.1 <= k ==> spec_read_u16(bytes.take(k), pos)
            == spec_read_u16(bytes, pos),
        spec_read_u16(bytes, pos)->Ok_0.1 > k ==> spec_read_u16(bytes.take(k), pos) == Err::<
            (u16, int),
            DecodeError,
        >(DecodeError::TruncatedInput),
{
}

/// The little-endian 4-byte image of a 32-bit integer (also the wire form of
/// a 32-bit float, through its bit pattern).
pub open spec fn spec_u32_le(n: u32) -> Seq<u8> {
    seq![
        (n & 0xff) as u8,
        ((n >> 8) & 0xff) as u8,
        ((n >> 16) & 0xff) as u8,
        ((n >> 24) & 0xff) as u8,
    ]
}

/// Parse a little-endian 32-bit integer.
pub open spec fn spec_read_u32(bytes: Seq<u8>, pos: int) -> Result<(u32, int), DecodeError> {
    if 0 <= pos && pos + 4 <= bytes.len() {
        Ok(
            (
                (bytes[pos] as u32) | ((bytes[pos + 1] as u32) << 8) | ((bytes[pos + 2] as u32)
                    << 16) | ((bytes[pos + 3] as u32) << 24),
                pos + 4,
            ),
        )
    } else {
        Err(DecodeError::TruncatedInput)
    }
}

/// Write a 32-bit integer in little-endian order.
pub fn write_u32(out: &mut Vec<u8>, n: u32)
    ensures
        final(out)@ == old(out)@ + spec_u32_le(n),
{
    out.push((n & 0xff) as u8);
    out.push(((n >> 8) & 0xff) as u8);
    out.push(((n >> 16) & 0xff) as u8);
    out.push(((n >> 24) & 0xff) as u8);
    assert(out@ =~= old(out)@ + spec_u32_le(n));
}

/// Read a little-endian 32-bit integer.
pub fn read_u32(bytes: &[u8], pos: usize) -> (r: Result<(u32, usize), DecodeError>)
    requires
        pos <= bytes@.len(),
    ensures
        (match (r, spec_read_u32(bytes@, pos as int)) {
            (Ok((v, end)), Ok((sv, se))) => v == sv && end as int == se,
            (Err(a), Err(b)) => a == b,
            _ => false,
        }),
{
    if bytes.len() - pos >= 4 {
        let b0: u8 = bytes[pos];
        let b1: u8 = bytes[pos + 1];
        let b2: u8 = bytes[pos + 2];
        let b3: u8 = bytes[pos + 3];
        Ok(
            (
                (b0 as u32) | ((b1 as u32) << 8) | ((b2 as u32) << 16) | ((b3 as u32) << 24),
                pos + 4,
            ),
        )
    } else {
        Err(DecodeError::TruncatedInput)
    }
}

/// Parsing the little-endian image of `n` laid down at `pos` yields `n`.
pub proof fn lemma_read_u32_at(bytes: Seq<u8>, pos: int, n: u32)
    requires
        0 <= pos,
        pos + 4 <= bytes.len(),
        bytes.subrange(pos, pos + 4) == spec_u32_le(n),
    ensures
        spec_read_u32(bytes, pos) == Ok::<(u32, int), DecodeError>((n, pos + 4)),
{
    assert(bytes[pos] == (n & 0xff) as u8);
    assert(bytes[pos + 1] == ((n >> 8) & 0xff) as u8);
    assert(bytes[pos + 2] == ((n >> 16) & 0xff) as u8);
    assert(bytes[pos + 3] == ((n >> 24) & 0xff) as u8);
    assert((((n & 0xff) as u8) as u32) | (((((n >> 8) & 0xff) as u8) as u32) << 8) | (((((n >> 16)
        & 0xff) as u8) as u32) << 16) | (((((n >> 24) & 0xff) as u8) as u32) << 24) == n)
        by (bit_vector);
}

/// A component placed at offsets `o1..o2` of an encoding laid down at `pos`
/// occupies `pos + o1 .. pos + o2` of the whole buffer.
pub proof fn lemma_subrange_of_matching(bytes: Seq<u8>, pos: int, enc: Seq<u8>, o1: int, o2: int)
    requires
        0 <= pos,
        pos + enc.len() <= bytes.len(),
        bytes.subrange(pos, pos + enc.len() as int) == enc,
        0 <= o1 <= o2 <= enc.len(),
    ensures
        bytes.subrange(pos + o1, pos + o2) == enc.subrange(o1, o2),
{
    assert(bytes.subrange(pos + o1, pos + o2) =~= enc.subrange(o1, o2)) by {
        assert forall|i: int| 0 <= i < o2 - o1 implies bytes.subrange(pos + o1, pos + o2)[i]
            == enc.subrange(o1, o2)[i] by {
            assert(bytes.subrange(pos, pos + enc.len() as int)[o1 + i] == enc[o1 + i]);
        }
    }
}

/// The wire form of a string: a compact length prefix followed by the UTF-8
/// bytes of its characters.
pub open spec fn spec_string_enc(s: Seq<char>) -> Seq<u8> {
    spec_varint(vstd::utf8::encode_utf8(s).len()) + vstd::utf8::encode_utf8(s)
}

/// Parse a length-prefixed UTF-8 string. A length prefix that does not fit
/// in 64 bits necessarily exceeds the bytes that remain, so it is reported
/// as a truncation, like any length larger than the rest of the buffer.
pub open spec fn spec_read_string(bytes: Seq<u8>, pos: int) -> Result<(Seq<char>, int), DecodeError> {
    match spec_read_varint(bytes, pos) {
        Err(_) => Err(DecodeError::TruncatedInput),
        Ok((n, p)) => if p + n > bytes.len() {
            Err(DecodeError::TruncatedInput)
        } else if !vstd::utf8::valid_utf8(bytes.subrange(p, p + n)) {
            Err(DecodeError::InvalidUtf8)
        } else {
            Ok((vstd::utf8::decode_utf8(bytes.subrange(p, p + n)), p + n))
        },
    }
}

/// Relies on `str::from_utf8`: it returns the string slice whose character
/// sequence is the UTF-8 decoding of the given bytes, and fails exactly on
/// byte sequences that are not valid UTF-8.
#[verifier::external_body]
fn str_from_utf8(bytes: &[u8]) -> (r: Option<&str>)
    ensures
        match r {
            Some(s) => vstd::utf8::valid_utf8(bytes@) && s@ == vstd::utf8::decode_utf8(bytes@),
            None => !vstd::utf8::valid_utf8(bytes@),
        },
{
    core::str::from_utf8(bytes).ok()
}

/// Write a string as a compact length prefix followed by its UTF-8 bytes.
pub fn write_string(out: &mut Vec<u8>, s: &str)
    ensures
        final(out)@ == old(out)@ + spec_string_enc(s@),
{
    let b: &[u8] = s.as_bytes();
    write_varint(out, b.len() as u64);
    let ghost mid: Seq<u8> = out@;
    let mut i: usize = 0;
    while i < b.len()
        invariant
            i <= b@.len(),
            b@ == vstd::utf8::encode_utf8(s@),
            out@ == mid + b@.take(i as int),
            mid == old(out)@ + spec_varint(b@.len() as nat),
        decreases b@.len() - i,
    {
        let byte: u8 = b[i];
        out.push(byte);
        assert(out@ =~= mid + b@.take(i + 1));
        i = i + 1;
    }
    assert(b@.take(b@.len() as int) =~= b@);
    assert(out@ =~= old(out)@ + spec_string_enc(s@));
}

/// Read a length-prefixed UTF-8 string.
pub fn read_string(bytes: &[u8], pos: usize) -> (r: Result<(String, usize), DecodeError>)
    requires
        pos <= bytes@.len(),
    ensures
        (match (r, spec_read_string(bytes@, pos as int)) {
            (Ok((s, end)), Ok((sv, se))) => s@ == sv && end as int == se,
            (Err(a), Err(b)) => a == b,
            _ => false,
        }),
{
    let (n, p): (u64, usize) = match read_varint(bytes, pos) {
        Ok(v) => v,
        Err(_) => {
            return Err(DecodeError::TruncatedInput);
        },
    };
    proof {
        lemma_read_varint_from_bound(bytes@, pos as int, 0);
    }
    if n > (bytes.len() - p) as u64 {
        return Err(DecodeError::TruncatedInput);
    }
    let nn: usize = n as usize;
    let sub: &[u8] = &bytes[p..p + nn];
    match str_from_utf8(sub) {
        Some(s) => Ok((s.to_owned(), p + nn)),
        None => Err(DecodeError::InvalidUtf8),
    }
}

/// Parsing the wire form of the string `s` laid down at `pos` yields `s`
/// back and stops right after it.
pub proof fn lemma_read_string_at(bytes: Seq<u8>, pos: int, s: Seq<char>)
    requires
        0 <= pos,
        vstd::utf8::encode_utf8(s).len() < 0x1_0000_0000_0000_0000,
        pos + spec_string_enc(s).len() <= bytes.len(),
        bytes.subrange(pos, pos + spec_string_enc(s).len() as int) == spec_string_enc(s),
    ensures
        spec_read_string(bytes, pos) == Ok::<(Seq<char>, int), DecodeError>(
            (s, pos + spec_string_enc(s).len()),
        ),
{
    let ub = vstd::utf8::encode_utf8(s);
    let n = ub.len();
    let venc = spec_varint(n);
    let enc = spec_string_enc(s);
    lemma_subrange_of_matching(bytes, pos, enc, 0, venc.len() as int);
    assert(enc.subrange(0, venc.len() as int) =~= venc);
    lemma_read_varint_at(bytes, pos, n);
    let p = pos + venc.len();
    lemma_subrange_of_matching(bytes, pos, enc, venc.len() as int, enc.len() as int);
    assert(enc.subrange(venc.len() as int, enc.len() as int) =~= ub);
    assert(bytes.subrange(p, p + n) == ub);
    vstd::utf8::encode_utf8_valid_utf8(s);
    vstd::utf8::encode_utf8_decode_utf8(s);
}

/// Truncation behaviour of the string parser under a shorter buffer.
pub proof fn lemma_read_string_take(bytes: Seq<u8>, k: int, pos: int)
    requires
        0 <= pos <= k <= bytes.len(),
        spec_read_string(bytes, pos) is Ok,
    ensures
        spec_read_string(bytes, pos)->Ok_0.1 <= k ==> spec_read_string(bytes.take(k), pos)
            == spec_read_string(bytes, pos),
        spec_read_string(bytes, pos)->Ok_0.1 > k ==> spec_read_string(bytes.take(k), pos) == Err::<
            (Seq<char>, int),
            DecodeError,
        >(DecodeError::TruncatedInput),
{
    let cut = bytes.take(k);
    lemma_read_varint_take(bytes, k, pos);
    lemma_read_varint_from_bound(bytes, pos, 0);
    let (n, p) = spec_read_varint(bytes, pos)->Ok_0;
    if p <= k {
        assert(spec_read_varint(cut, pos) == spec_read_varint(bytes, pos));
        if p + n <= k {
            assert(cut.subrange(p, p + n as int) =~= bytes.subrange(p, p + n as int));
        } else {
            assert(p + n > cut.len());
        }
    } else {
        assert(spec_read_varint(cut, pos) == Err::<(nat, int), VarintFault>(
            VarintFault::Truncated,
        ));
    }
}

/// Truncation behaviour of the 32-bit parser under a shorter buffer.
pub proof fn lemma_read_u32_take(bytes: Seq<u8>, k: int, pos: int)
    requires
        0 <= pos <= k <= bytes.len(),
        spec_read_u32(bytes, pos) is Ok,
    ensures
        spec_read_u32(bytes, pos)->Ok_0.1 <= k ==> spec_read_u32(bytes.take(k), pos)
            == spec_read_u32(bytes, pos),
        spec_read_u32(bytes, pos)->Ok_0.1 > k ==> spec_read_u32(bytes.take(k), pos) == Err::<
            (u32, int),
            DecodeError,
        >(DecodeError::TruncatedInput),
{
}

} // verus!
