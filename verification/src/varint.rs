//! Unsigned LEB128 varints, the integer encoding used throughout the wire
//! format: seven value bits per byte, least significant group first, and the
//! high bit set on every byte but the last. A `u64` needs at most 10 bytes.
use vstd::prelude::*;

verus! {

/// Largest number of bytes a varint may occupy.
pub const MAX_VARINT_LEN: usize = 10;

/// Errors in the low-level framing of a payload.
#[derive(Debug, Clone, Copy, PartialEq, Eq)]
pub enum WireError {
    /// The buffer ended at `offset` while more bytes were needed.
    UnexpectedEof { offset: usize },
    /// A varint ran past 10 bytes, or its value does not fit in a `u64`.
    VarintTooLong,
    /// The first four header bytes are not the protocol magic.
    InvalidMagic { found: u32 },
    /// The header names a major version this library does not read.
    UnsupportedVersion { major: u8, minor: u8 },
    /// The reserved header byte is not zero.
    ReservedNonZero { value: u8 },
}

/// The canonical encoding of `v`.
pub open spec fn spec_varint(v: nat) -> Seq<u8>
    decreases v,
{
    if v < 128 {
        seq![v as u8]
    } else {
        seq![(v % 128 + 128) as u8] + spec_varint(v / 128)
    }
}

/// What decoding reads from the front of `s` when at most `fuel` bytes may
/// be used: the value (not yet bounded to `u64`) and the bytes consumed.
pub open spec fn spec_varint_parse(s: Seq<u8>, fuel: nat) -> Result<(int, nat), WireError>
    decreases fuel,
{
    if fuel == 0 {
        Err(WireError::VarintTooLong)
    } else if s.len() == 0 {
        Err(WireError::UnexpectedEof { offset: 0 })
    } else if s[0] < 128 {
        Ok((s[0] as int, 1))
    } else {
        match spec_varint_parse(s.drop_first(), (fuel - 1) as nat) {
            Ok((v, n)) => Ok(((s[0] - 128) + 128 * v, n + 1)),
            Err(WireError::UnexpectedEof { offset }) => Err(
                WireError::UnexpectedEof { offset: (offset + 1) as usize },
            ),
            Err(e) => Err(e),
        }
    }
}

/// The result of decoding a varint at the front of `s`.
pub open spec fn spec_decode_varint(s: Seq<u8>) -> Result<(u64, nat), WireError> {
    match spec_varint_parse(s, MAX_VARINT_LEN as nat) {
        Ok((v, n)) => if v <= u64::MAX {
            Ok((v as u64, n))
        } else {
            Err(WireError::VarintTooLong)
        },
        Err(e) => Err(e),
    }
}

proof fn lemma_parse_bounds(s: Seq<u8>, fuel: nat)
    ensures
        spec_varint_parse(s, fuel) matches Ok((v, n)) ==> 0 <= v && 1 <= n <= fuel && n <= s.len(),
        s.len() <= usize::MAX ==> (spec_varint_parse(s, fuel) matches Err(
            WireError::UnexpectedEof { offset },
        ) ==> offset == s.len()),
    decreases fuel,
{
    if fuel > 0 && s.len() > 0 && s[0] >= 128 {
        lemma_parse_bounds(s.drop_first(), (fuel - 1) as nat);
    }
}

/// A successful decode stays within the buffer and uses at most 10 bytes;
/// running out of bytes is reported at the end of the buffer.
pub proof fn lemma_decode_varint_bounds(s: Seq<u8>)
    ensures
        spec_decode_varint(s) matches Ok((v, n)) ==> 1 <= n <= s.len() && n <= MAX_VARINT_LEN,
        s.len() <= usize::MAX ==> (spec_decode_varint(s) matches Err(
            WireError::UnexpectedEof { offset },
        ) ==> offset == s.len()),
{
    lemma_parse_bounds(s, MAX_VARINT_LEN as nat);
}

/// A varint read from the front of `s` ends at its first byte without the
/// continuation bit, and reading those bytes alone gives the same result.
proof fn lemma_parse_prefix(s: Seq<u8>, fuel: nat)
    requires
        spec_varint_parse(s, fuel) is Ok,
    ensures
        ({
            let (v, n) = spec_varint_parse(s, fuel)->Ok_0;
            &&& 1 <= n <= s.len()
            &&& s[n - 1] < 0x80
            &&& forall|k: int| 0 <= k < n - 1 ==> s[k] >= 0x80
            &&& spec_varint_parse(s.take(n as int), fuel) == Ok::<(int, nat), WireError>((v, n))
        }),
    decreases fuel,
{
    lemma_parse_bounds(s, fuel);
    if s[0] >= 128 {
        let t = s.drop_first();
        lemma_parse_prefix(t, (fuel - 1) as nat);
        let (v2, n2) = spec_varint_parse(t, (fuel - 1) as nat)->Ok_0;
        let n = n2 + 1;
        assert(s.take(n as int).drop_first() =~= t.take(n2 as int));
        assert forall|k: int| 0 <= k < n - 1 implies s[k] >= 0x80 by {
            if k > 0 {
                assert(s[k] == t[k - 1]);
            }
        }
        assert(s[n - 1] == t[n2 - 1]);
    } else {
        assert(s.take(1)[0] == s[0]);
    }
}

/// A decoded varint: its bytes before the last carry the continuation
/// bit, and decoding those bytes alone gives the same value.
pub proof fn lemma_decode_varint_prefix(s: Seq<u8>)
    requires
        spec_decode_varint(s) is Ok,
    ensures
        ({
            let (v, n) = spec_decode_varint(s)->Ok_0;
            &&& 1 <= n <= s.len()
            &&& n <= MAX_VARINT_LEN
            &&& s[n - 1] < 0x80
            &&& forall|k: int| 0 <= k < n - 1 ==> s[k] >= 0x80
            &&& spec_decode_varint(s.take(n as int)) == Ok::<(u64, nat), WireError>((v, n))
        }),
{
    lemma_parse_bounds(s, MAX_VARINT_LEN as nat);
    lemma_parse_prefix(s, MAX_VARINT_LEN as nat);
}

/// Length of the canonical encoding, and its range.
pub proof fn lemma_varint_len(v: nat)
    ensures
        1 <= spec_varint(v).len(),
        v <= u64::MAX ==> spec_varint(v).len() <= MAX_VARINT_LEN,
        v < 128 ==> spec_varint(v).len() == 1,
    decreases v,
{
    if v >= 128 {
        lemma_varint_len(v / 128);
        if v <= u64::MAX {
            lemma_pow128_10();
            lemma_varint_len_bound(v, 10);
        }
    }
}

proof fn lemma_varint_len_bound(v: nat, k: nat)
    requires
        1 <= k,
        v < pow128(k),
    ensures
        spec_varint(v).len() <= k,
    decreases k,
{
    if v >= 128 {
        assert(k >= 2) by {
            if k == 1 {
                assert(pow128(1) == 128 * pow128(0));
            }
        }
        assert(pow128(k) == 128 * pow128((k - 1) as nat));
        assert(v / 128 < pow128((k - 1) as nat)) by (nonlinear_arith)
            requires
                v < 128 * pow128((k - 1) as nat),
        ;
        lemma_varint_len_bound(v / 128, (k - 1) as nat);
    }
}

spec fn pow128(k: nat) -> nat
    decreases k,
{
    if k == 0 {
        1
    } else {
        128 * pow128((k - 1) as nat)
    }
}

proof fn lemma_pow128_10()
    ensures
        pow128(10) == 1180591620717411303424,
{
    reveal_with_fuel(pow128, 11);
}

/// Reading the canonical encoding of `v` back, whatever follows it, gives
/// `v` and the length of the encoding.
pub proof fn lemma_varint_roundtrip(v: nat, rest: Seq<u8>, fuel: nat)
    requires
        spec_varint(v).len() <= fuel,
    ensures
        spec_varint_parse(spec_varint(v) + rest, fuel) == Ok::<(int, nat), WireError>(
            (v as int, spec_varint(v).len()),
        ),
    decreases v,
{
    let s = spec_varint(v) + rest;
    if v < 128 {
        assert(s[0] == v as u8);
    } else {
        lemma_varint_len(v / 128);
        assert(s.drop_first() =~= spec_varint(v / 128) + rest);
        lemma_varint_roundtrip(v / 128, rest, (fuel - 1) as nat);
    }
}

/// Decoding the canonical encoding of a `u64`.
pub proof fn lemma_decode_varint_roundtrip(v: u64, rest: Seq<u8>)
    ensures
        spec_decode_varint(spec_varint(v as nat) + rest) == Ok::<(u64, nat), WireError>(
            (v, spec_varint(v as nat).len()),
        ),
        spec_varint(v as nat).len() <= MAX_VARINT_LEN,
{
    lemma_varint_len(v as nat);
    lemma_varint_roundtrip(v as nat, rest, MAX_VARINT_LEN as nat);
}

/// Append the varint encoding of `value` to `buf`, returning the number of
/// bytes written.
pub fn encode_varint(value: u64, buf: &mut Vec<u8>) -> (n: usize)
    ensures
        final(buf)@ == old(buf)@ + spec_varint(value as nat),
        n == spec_varint(value as nat).len(),
        1 <= n <= MAX_VARINT_LEN,
{
    proof {
        lemma_varint_len(value as nat);
    }
    let ghost orig = buf@;
    let mut v = value;
    let mut n: usize = 0;
    while v >= 128
        invariant
            buf@ + spec_varint(v as nat) == orig + spec_varint(value as nat),
            n + spec_varint(v as nat).len() == spec_varint(value as nat).len(),
            spec_varint(value as nat).len() <= MAX_VARINT_LEN,
        decreases v,
    {
        let byte = ((v % 128) + 128) as u8;
        proof {
            lemma_varint_len((v / 128) as nat);
            assert(spec_varint(v as nat) =~= seq![byte] + spec_varint((v / 128) as nat));
        }
        buf.push(byte);
        n = n + 1;
        v = v / 128;
    }
    buf.push(v as u8);
    n + 1
}

/// Decode a varint from the front of `buf`, returning the value and the
/// number of bytes consumed.
///
/// # Errors
///
/// [`WireError::UnexpectedEof`] if `buf` ends before the last byte of the
/// varint; [`WireError::VarintTooLong`] if it runs past 10 bytes or its value
/// exceeds `u64::MAX`.
pub fn decode_varint(buf: &[u8]) -> (res: Result<(u64, usize), WireError>)
    ensures
        res matches Ok((v, n)) ==> spec_decode_varint(buf@) == Ok::<(u64, nat), WireError>(
            (v, n as nat),
        ),
        res matches Err(e) ==> spec_decode_varint(buf@) == Err::<(u64, nat), WireError>(e),
        res matches Ok((v, n)) ==> 1 <= n <= buf@.len() && n <= MAX_VARINT_LEN,
{
    proof {
        assert(buf@.subrange(0, buf@.len() as int) =~= buf@);
        lemma_parse_bounds(buf@, 10);
    }
    match decode_varint_at(buf, 0, 10) {
        Ok((v, n)) => Ok((v, n)),
        Err(e) => Err(e),
    }
}

/// Recursive worker: decode from `buf[pos..]` using at most `fuel` bytes.
fn decode_varint_at(buf: &[u8], pos: usize, fuel: usize) -> (res: Result<(u64, usize), WireError>)
    requires
        pos <= buf@.len(),
    ensures
        ({
            let s = buf@.subrange(pos as int, buf@.len() as int);
            match spec_varint_parse(s, fuel as nat) {
                Ok((v, n)) => if v <= u64::MAX {
                    res == Ok::<(u64, usize), WireError>((v as u64, n as usize))
                } else {
                    res == Err::<(u64, usize), WireError>(WireError::VarintTooLong)
                },
                Err(WireError::UnexpectedEof { offset }) => res == Err::<(u64, usize), WireError>(
                    WireError::UnexpectedEof { offset: offset as usize },
                ),
                Err(e) => res == Err::<(u64, usize), WireError>(e),
            }
        }),
    decreases fuel,
{
    let ghost s = buf@.subrange(pos as int, buf@.len() as int);
    proof {
        lemma_parse_bounds(s, fuel as nat);
    }
    if fuel == 0 {
        return Err(WireError::VarintTooLong);
    }
    if pos >= buf.len() {
        return Err(WireError::UnexpectedEof { offset: 0 });
    }
    let b = buf[pos];
    if b < 128 {
        return Ok((b as u64, 1));
    }
    proof {
        assert(s.drop_first() =~= buf@.subrange(pos + 1, buf@.len() as int));
        lemma_parse_bounds(s.drop_first(), (fuel - 1) as nat);
    }
    match decode_varint_at(buf, pos + 1, fuel - 1) {
        Ok((rest, n)) => {
            let low = (b - 128) as u64;
            if rest > (u64::MAX - low) / 128 {
                proof {
                    assert(low + 128 * rest > u64::MAX) by (nonlinear_arith)
                        requires
                            rest > (u64::MAX - low) / 128,
                            low < 128,
                    ;
                }
                Err(WireError::VarintTooLong)
            } else {
                proof {
                    assert(low + 128 * rest <= u64::MAX) by (nonlinear_arith)
                        requires
                            rest <= (u64::MAX - low) / 128,
                            low < 128,
                    ;
                }
                Ok((low + 128 * rest, n + 1))
            }
        },
        Err(WireError::UnexpectedEof { offset }) => {
            Err(WireError::UnexpectedEof { offset: offset + 1 })
        },
        Err(e) => Err(e),
    }
}

} // verus!
