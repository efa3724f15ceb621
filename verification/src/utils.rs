use vstd::prelude::*;

use crate::errors::DecodeError;

verus! {

// ---------------------------------------------------------------------------
// LEB128 ground truth
//
// A LEB128 field is a chain of bytes; each byte contributes its low seven
// bits, least significant group first, and its high bit says whether the
// chain continues.  The decoder accepts at most `MAX_LEB128_GROUPS` groups,
// enough for any value of the 64-bit target width.
// ---------------------------------------------------------------------------

pub const MAX_LEB128_GROUPS: u8 = 10;

/// Value and end offset of the unsigned LEB128 chain starting at `off`,
/// allowing at most `groups` groups.  The value is unbounded here; width
/// checks sit in `spec_unsigned_leb128`.
pub open spec fn spec_uleb128_rec(s: Seq<u8>, off: nat, groups: nat) -> Result<(nat, nat), DecodeError>
    decreases groups,
{
    if groups == 0 {
        Err(DecodeError::InvalidLeb128Encoding)
    } else if off >= s.len() {
        Err(DecodeError::UnexpectedEof)
    } else if s[off as int] < 0x80 {
        Ok((s[off as int] as nat, off + 1))
    } else {
        match spec_uleb128_rec(s, off + 1, (groups - 1) as nat) {
            Ok((v, end)) => Ok((((s[off as int] - 0x80) as nat + 128 * v) as nat, end)),
            Err(e) => Err(e),
        }
    }
}

/// One unsigned LEB128 integer of the 64-bit target width, decoded at `off`:
/// the value and the offset just past its last byte.
pub open spec fn spec_unsigned_leb128(s: Seq<u8>, off: nat) -> Result<(u64, nat), DecodeError> {
    match spec_uleb128_rec(s, off, MAX_LEB128_GROUPS as nat) {
        Ok((v, end)) => if v <= u64::MAX as nat {
            Ok((v as u64, end))
        } else {
            Err(DecodeError::InvalidLeb128Encoding)
        },
        Err(e) => Err(e),
    }
}

/// As `spec_unsigned_leb128`, narrowed to the 32-bit fields (counts, lengths,
/// indices) of the binary format.
pub open spec fn spec_uleb128_u32(s: Seq<u8>, off: nat) -> Result<(u32, nat), DecodeError> {
    match spec_unsigned_leb128(s, off) {
        Ok((v, end)) => if v <= u32::MAX as u64 {
            Ok((v as u32, end))
        } else {
            Err(DecodeError::InvalidLeb128Encoding)
        },
        Err(e) => Err(e),
    }
}

/// Signed LEB128 chain: the final group is a signed seven-bit value, all
/// earlier groups are unsigned.
pub open spec fn spec_sleb128_rec(s: Seq<u8>, off: nat, groups: nat) -> Result<(int, nat), DecodeError>
    decreases groups,
{
    if groups == 0 {
        Err(DecodeError::InvalidLeb128Encoding)
    } else if off >= s.len() {
        Err(DecodeError::UnexpectedEof)
    } else if s[off as int] < 0x40 {
        Ok((s[off as int] as int, off + 1))
    } else if s[off as int] < 0x80 {
        Ok((s[off as int] - 0x80, off + 1))
    } else {
        match spec_sleb128_rec(s, off + 1, (groups - 1) as nat) {
            Ok((v, end)) => Ok(((s[off as int] - 0x80) + 128 * v, end)),
            Err(e) => Err(e),
        }
    }
}

/// One signed LEB128 integer of the 64-bit target width.
pub open spec fn spec_signed_leb128(s: Seq<u8>, off: nat) -> Result<(i64, nat), DecodeError> {
    match spec_sleb128_rec(s, off, MAX_LEB128_GROUPS as nat) {
        Ok((v, end)) => if i64::MIN <= v <= i64::MAX {
            Ok((v as i64, end))
        } else {
            Err(DecodeError::InvalidLeb128Encoding)
        },
        Err(e) => Err(e),
    }
}

// ---------------------------------------------------------------------------
// Executable codec
// ---------------------------------------------------------------------------

fn uleb128_rec(bytes: &[u8], offset: usize, groups: u8) -> (r: Result<(u64, usize), DecodeError>)
    ensures
        ({
            let sr = spec_uleb128_rec(bytes@, offset as nat, groups as nat);
            match r {
                Ok((v, end)) => sr == Ok::<(nat, nat), DecodeError>((v as nat, end as nat))
                    && offset < end <= bytes@.len(),
                Err(e) => match sr {
                    Ok(p) => e == DecodeError::InvalidLeb128Encoding && p.0 > u64::MAX,
                    Err(se) => e == se,
                },
            }
        }),
    decreases groups,
{
    if groups == 0 {
        return Err(DecodeError::InvalidLeb128Encoding);
    }
    if offset >= bytes.len() {
        return Err(DecodeError::UnexpectedEof);
    }
    let b = bytes[offset];
    if b < 0x80 {
        Ok((b as u64, offset + 1))
    } else {
        match uleb128_rec(bytes, offset + 1, groups - 1) {
            Err(e) => Err(e),
            Ok((v, end)) => {
                let low = (b - 0x80) as u64;
                if v > (u64::MAX - low) / 128 {
                    Err(DecodeError::InvalidLeb128Encoding)
                } else {
                    Ok((low + 128 * v, end))
                }
            },
        }
    }
}

/// Decode one unsigned LEB128 integer starting at `offset`; on success the
/// returned offset sits just past the last byte of the field.
pub fn unsigned_leb128_decode(bytes: &[u8], offset: usize) -> (r: Result<(u64, usize), DecodeError>)
    ensures
        ({
            let sr = spec_unsigned_leb128(bytes@, offset as nat);
            match r {
                Ok((v, end)) => sr == Ok::<(u64, nat), DecodeError>((v, end as nat))
                    && offset < end <= bytes@.len(),
                Err(e) => sr == Err::<(u64, nat), DecodeError>(e),
            }
        }),
{
    match uleb128_rec(bytes, offset, MAX_LEB128_GROUPS) {
        Ok((v, end)) => Ok((v, end)),
        Err(e) => Err(e),
    }
}

/// Decode one unsigned LEB128 integer that must fit the 32-bit fields of the
/// format.
pub fn uleb128_decode_u32(bytes: &[u8], offset: usize) -> (r: Result<(u32, usize), DecodeError>)
    ensures
        ({
            let sr = spec_uleb128_u32(bytes@, offset as nat);
            match r {
                Ok((v, end)) => sr == Ok::<(u32, nat), DecodeError>((v, end as nat))
                    && offset < end <= bytes@.len(),
                Err(e) => sr == Err::<(u32, nat), DecodeError>(e),
            }
        }),
{
    match unsigned_leb128_decode(bytes, offset) {
        Ok((v, end)) => if v <= u32::MAX as u64 {
            Ok((v as u32, end))
        } else {
            Err(DecodeError::InvalidLeb128Encoding)
        },
        Err(e) => Err(e),
    }
}

/// Powers of 128, the radix of LEB128.
pub open spec fn pow128(k: nat) -> int
    decreases k,
{
    if k == 0 {
        1
    } else {
        128 * pow128((k - 1) as nat)
    }
}

proof fn lemma_pow128_pos(k: nat)
    ensures
        pow128(k) >= 1,
    decreases k,
{
    if k > 0 {
        lemma_pow128_pos((k - 1) as nat);
    }
}

/// Every signed chain of at most `groups` groups lies in
/// `[-64 * pow128(groups - 1), pow128(groups))`.
proof fn lemma_sleb128_rec_bound(s: Seq<u8>, off: nat, groups: nat)
    ensures
        spec_sleb128_rec(s, off, groups) matches Ok(p) ==> groups >= 1
            && -64 * pow128((groups - 1) as nat) <= p.0 < pow128(groups),
    decreases groups,
{
    if groups >= 1 && off < s.len() && s[off as int] >= 0x80 {
        lemma_sleb128_rec_bound(s, off + 1, (groups - 1) as nat);
        if spec_sleb128_rec(s, off + 1, (groups - 1) as nat) matches Ok(q) {
            lemma_pow128_pos((groups - 1) as nat);
            if groups >= 2 {
                lemma_pow128_pos((groups - 2) as nat);
            }
        }
    }
    if groups >= 1 {
        lemma_pow128_pos((groups - 1) as nat);
    }
}

fn sleb128_rec(bytes: &[u8], offset: usize, groups: u8) -> (r: Result<(i128, usize), DecodeError>)
    requires
        groups <= MAX_LEB128_GROUPS,
    ensures
        ({
            let sr = spec_sleb128_rec(bytes@, offset as nat, groups as nat);
            match r {
                Ok((v, end)) => sr == Ok::<(int, nat), DecodeError>((v as int, end as nat))
                    && offset < end <= bytes@.len(),
                Err(e) => sr == Err::<(int, nat), DecodeError>(e),
            }
        }),
    decreases groups,
{
    if groups == 0 {
        return Err(DecodeError::InvalidLeb128Encoding);
    }
    if offset >= bytes.len() {
        return Err(DecodeError::UnexpectedEof);
    }
    let b = bytes[offset];
    if b < 0x40 {
        Ok((b as i128, offset + 1))
    } else if b < 0x80 {
        Ok((b as i128 - 0x80, offset + 1))
    } else {
        match sleb128_rec(bytes, offset + 1, groups - 1) {
            Err(e) => Err(e),
            Ok((v, end)) => {
                proof {
                    lemma_sleb128_rec_bound(bytes@, offset as nat + 1, (groups - 1) as nat);
                    assert(pow128(9) == 0x8000000000000000) by {
                        reveal_with_fuel(pow128, 10);
                    }
                    lemma_pow128_bounded((groups - 1) as nat);
                }
                let low = (b - 0x80) as i128;
                Ok((low + 128 * v, end))
            },
        }
    }
}

/// `pow128` below the group limit stays below `pow128(9)`.
proof fn lemma_pow128_bounded(k: nat)
    requires
        k <= 9,
    ensures
        pow128(k) <= pow128(9),
    decreases 9 - k,
{
    if k < 9 {
        lemma_pow128_bounded(k + 1);
        lemma_pow128_pos(k);
    }
}

/// Decode one signed LEB128 integer of the 64-bit target width.
pub fn signed_leb128_decode(bytes: &[u8], offset: usize) -> (r: Result<(i64, usize), DecodeError>)
    ensures
        ({
            let sr = spec_signed_leb128(bytes@, offset as nat);
            match r {
                Ok((v, end)) => sr == Ok::<(i64, nat), DecodeError>((v, end as nat))
                    && offset < end <= bytes@.len(),
                Err(e) => sr == Err::<(i64, nat), DecodeError>(e),
            }
        }),
{
    match sleb128_rec(bytes, offset, MAX_LEB128_GROUPS) {
        Ok((v, end)) => if i64::MIN as i128 <= v && v <= i64::MAX as i128 {
            Ok((v as i64, end))
        } else {
            Err(DecodeError::InvalidLeb128Encoding)
        },
        Err(e) => Err(e),
    }
}

/// Read one length field at `offset`: a single byte below 0x80 on the fast
/// path, otherwise a full LEB128 field.  Both branches agree exactly with the
/// varint codec; the result is the declared length and the offset of the
/// first byte after the field.
pub fn calc_len_and_offset(bytes: &[u8], offset: usize) -> (r: Result<(u64, usize), DecodeError>)
    ensures
        ({
            let sr = spec_unsigned_leb128(bytes@, offset as nat);
            match r {
                Ok((v, end)) => sr == Ok::<(u64, nat), DecodeError>((v, end as nat))
                    && offset < end <= bytes@.len(),
                Err(e) => sr == Err::<(u64, nat), DecodeError>(e),
            }
        }),
{
    if offset < bytes.len() && bytes[offset] < 0x80 {
        Ok((bytes[offset] as u64, offset + 1))
    } else {
        unsigned_leb128_decode(bytes, offset)
    }
}

// ---------------------------------------------------------------------------
// Laws of the codec
// ---------------------------------------------------------------------------

/// The shortest LEB128 encoding of `n`: one byte per base-128 digit.
pub open spec fn spec_uleb128_len(n: nat) -> nat
    decreases n,
{
    if n < 128 {
        1
    } else {
        1 + spec_uleb128_len(n / 128)
    }
}

/// The minimal LEB128 encoding of `n`, least significant group first.
pub open spec fn spec_uleb128_encode(n: nat) -> Seq<u8>
    decreases n,
{
    if n < 128 {
        seq![n as u8]
    } else {
        seq![(128 + n % 128) as u8] + spec_uleb128_encode(n / 128)
    }
}

/// A decoded chain lies strictly inside the buffer and uses at most `groups`
/// bytes.
pub proof fn lemma_uleb128_rec_range(s: Seq<u8>, off: nat, groups: nat)
    ensures
        spec_uleb128_rec(s, off, groups) matches Ok(p) ==> off < p.1 <= s.len() && p.1 - off
            <= groups,
    decreases groups,
{
    if groups >= 1 && off < s.len() && s[off as int] >= 0x80 {
        lemma_uleb128_rec_range(s, off + 1, (groups - 1) as nat);
    }
}

/// Decoding reads only the bytes of the chain itself: the same bytes at
/// another position in another buffer decode to the same value.
pub proof fn lemma_uleb128_rec_translate(s: Seq<u8>, t: Seq<u8>, soff: nat, toff: nat, groups: nat)
    requires
        spec_uleb128_rec(s, soff, groups) matches Ok(p) && {
            &&& toff + (p.1 - soff) <= t.len()
            &&& t.subrange(toff as int, (toff + (p.1 - soff)) as int) == s.subrange(soff as int, p.1 as int)
        },
    ensures
        spec_uleb128_rec(s, soff, groups) matches Ok(p) ==> spec_uleb128_rec(t, toff, groups)
            == Ok::<(nat, nat), DecodeError>((p.0, (toff + (p.1 - soff)) as nat)),
    decreases groups,
{
    lemma_uleb128_rec_range(s, soff, groups);
    if let Ok(p) = spec_uleb128_rec(s, soff, groups) {
        let w = p.1 - soff;
        assert(t[toff as int] == t.subrange(toff as int, (toff + w) as int)[0]);
        assert(s[soff as int] == s.subrange(soff as int, p.1 as int)[0]);
        if s[soff as int] < 0x80 {
        } else {
            lemma_uleb128_rec_range(s, soff + 1, (groups - 1) as nat);
            assert(t.subrange(toff as int + 1, (toff + w) as int) =~= s.subrange(soff as int + 1, p.1 as int))
                by {
                assert forall|i: int| 0 <= i < w - 1 implies #[trigger] (t.subrange(
                    toff as int + 1,
                    (toff + w) as int,
                )[i]) == s.subrange(soff as int + 1, p.1 as int)[i] by {
                    assert(t.subrange(toff as int, (toff + w) as int)[i + 1] == s.subrange(
                        soff as int,
                        p.1 as int,
                    )[i + 1]);
                }
            }
            lemma_uleb128_rec_translate(s, t, soff + 1, toff + 1, (groups - 1) as nat);
        }
    }
}

/// Cutting the final byte of a chain that reaches the end of the buffer
/// leaves an unterminated chain.
pub proof fn lemma_uleb128_rec_cut(s: Seq<u8>, off: nat, groups: nat)
    requires
        spec_uleb128_rec(s, off, groups) matches Ok(p) && p.1 == s.len(),
    ensures
        spec_uleb128_rec(s.take(s.len() - 1), off, groups) == Err::<(nat, nat), DecodeError>(
            DecodeError::UnexpectedEof,
        ),
    decreases groups,
{
    lemma_uleb128_rec_range(s, off, groups);
    if s[off as int] >= 0x80 {
        lemma_uleb128_rec_cut(s, off + 1, (groups - 1) as nat);
    }
}

/// The encoding of `n` has exactly `spec_uleb128_len(n)` bytes.
pub proof fn lemma_uleb128_encode_len(n: nat)
    ensures
        spec_uleb128_encode(n).len() == spec_uleb128_len(n),
    decreases n,
{
    if n >= 128 {
        lemma_uleb128_encode_len(n / 128);
    }
}

/// Decoding the encoding of `n`, embedded anywhere in a buffer, yields `n`
/// and consumes exactly the encoding.
proof fn lemma_uleb128_decode_encode_at(n: nat, s: Seq<u8>, off: nat, groups: nat)
    requires
        off + spec_uleb128_len(n) <= s.len(),
        s.subrange(off as int, (off + spec_uleb128_len(n)) as int) == spec_uleb128_encode(n),
        groups >= spec_uleb128_len(n),
    ensures
        spec_uleb128_rec(s, off, groups) == Ok::<(nat, nat), DecodeError>(
            (n, (off + spec_uleb128_len(n)) as nat),
        ),
    decreases n,
{
    lemma_uleb128_encode_len(n);
    let w = spec_uleb128_len(n);
    assert(s[off as int] == s.subrange(off as int, (off + w) as int)[0]);
    if n < 128 {
    } else {
        lemma_uleb128_encode_len(n / 128);
        let w2 = spec_uleb128_len(n / 128);
        assert(s.subrange(off as int + 1, (off + w) as int) =~= spec_uleb128_encode(n / 128)) by {
            assert forall|i: int| 0 <= i < w2 implies #[trigger] (s.subrange(
                off as int + 1,
                (off + w) as int,
            )[i]) == spec_uleb128_encode(n / 128)[i] by {
                assert(s.subrange(off as int, (off + w) as int)[i + 1] == spec_uleb128_encode(n)[i + 1]);
            }
        }
        lemma_uleb128_decode_encode_at(n / 128, s, off + 1, (groups - 1) as nat);
        assert(s[off as int] == 128 + n % 128);
        assert((s[off as int] - 0x80) + 128 * (n / 128) == n) by {
            assert(n % 128 + 128 * (n / 128) == n) by (nonlinear_arith);
        }
    }
}

/// Below `pow128(k)` at most `k` digits are needed.
proof fn lemma_uleb128_len_le(n: nat, k: nat)
    requires
        k >= 1,
        n < pow128(k),
    ensures
        spec_uleb128_len(n) <= k,
    decreases k,
{
    if n >= 128 {
        assert(n / 128 < pow128((k - 1) as nat)) by {
            assert(pow128(k) == 128 * pow128((k - 1) as nat));
            assert(n < 128 * pow128((k - 1) as nat) ==> n / 128 < pow128((k - 1) as nat))
                by (nonlinear_arith);
        }
        lemma_uleb128_len_le(n / 128, (k - 1) as nat);
    }
}

/// Round trip of the varint codec: for every value of the 64-bit target
/// width, decoding its minimal LEB128 encoding succeeds, returns the value,
/// and consumes exactly the encoding, whose length is the minimal one.
pub proof fn lemma_uleb128_decode_encode(n: u64)
    ensures
        ({
            let enc = spec_uleb128_encode(n as nat);
            &&& spec_unsigned_leb128(enc, 0) == Ok::<(u64, nat), DecodeError>((n, enc.len()))
            &&& enc.len() == spec_uleb128_len(n as nat)
        }),
{
    let enc = spec_uleb128_encode(n as nat);
    lemma_uleb128_encode_len(n as nat);
    assert(pow128(10) == 0x400000000000000000) by {
        reveal_with_fuel(pow128, 11);
    }
    lemma_uleb128_len_le(n as nat, 10);
    assert(enc.subrange(0, enc.len() as int) =~= enc);
    lemma_uleb128_decode_encode_at(n as nat, enc, 0, 10);
}

/// Minimality: any chain that decodes to `v` is at least as long as the
/// minimal encoding of `v`.
pub proof fn lemma_uleb128_len_minimal(s: Seq<u8>, off: nat, groups: nat)
    ensures
        spec_uleb128_rec(s, off, groups) matches Ok(p) ==> p.1 - off >= spec_uleb128_len(p.0),
    decreases groups,
{
    if groups >= 1 && off < s.len() {
        if s[off as int] >= 0x80 {
            lemma_uleb128_len_minimal(s, off + 1, (groups - 1) as nat);
            lemma_uleb128_rec_range(s, off + 1, (groups - 1) as nat);
            if let Ok(q) = spec_uleb128_rec(s, off + 1, (groups - 1) as nat) {
                let v = (s[off as int] - 0x80) as nat + 128 * q.0;
                assert(v / 128 == q.0 && v % 128 == (s[off as int] - 0x80) as nat) by {
                    assert((s[off as int] - 0x80) as nat + 128 * q.0 == q.0 * 128 + (
                    s[off as int] - 0x80) as nat) by (nonlinear_arith);
                    vstd::arithmetic::div_mod::lemma_fundamental_div_mod_converse(
                        v as int,
                        128,
                        q.0 as int,
                        (s[off as int] - 0x80) as int,
                    );
                }
            }
        }
    }
}

// ---------------------------------------------------------------------------
// Small byte utilities shared by the section decoders
// ---------------------------------------------------------------------------

/// Copy `bytes[start..end]` into an owned vector.
pub fn slice_range_to_vec(bytes: &[u8], start: usize, end: usize) -> (r: Vec<u8>)
    requires
        start <= end <= bytes@.len(),
    ensures
        r@ == bytes@.subrange(start as int, end as int),
{
    let mut r: Vec<u8> = Vec::new();
    let mut k = start;
    while k < end
        invariant
            start <= k <= end <= bytes@.len(),
            r@ == bytes@.subrange(start as int, k as int),
        decreases end - k,
    {
        r.push(bytes[k]);
        proof {
            assert(bytes@.subrange(start as int, k as int).push(bytes@[k as int])
                =~= bytes@.subrange(start as int, k as int + 1));
        }
        k = k + 1;
    }
    proof {
        assert(r@ =~= bytes@.subrange(start as int, end as int));
    }
    r
}

/// Relies on `String::from_utf8`: it returns the string whose characters are
/// the UTF-8 decoding of the bytes exactly when the bytes are valid UTF-8,
/// and refuses them otherwise.
#[verifier::external_body]
fn vec_to_string(v: Vec<u8>) -> (r: Option<String>)
    ensures
        match r {
            Some(s) => vstd::utf8::valid_utf8(v@) && s@ == vstd::utf8::decode_utf8(v@),
            None => !vstd::utf8::valid_utf8(v@),
        },
{
    String::from_utf8(v).ok()
}

/// A length-prefixed UTF-8 name at `off`: a LEB128 byte count, then that
/// many bytes, which must be valid UTF-8.
pub open spec fn spec_name(s: Seq<u8>, off: nat) -> Result<(Seq<char>, nat), DecodeError> {
    match spec_uleb128_u32(s, off) {
        Err(e) => Err(e),
        Ok((nlen, o1)) => if o1 + nlen > s.len() {
            Err(DecodeError::UnexpectedEof)
        } else if !vstd::utf8::valid_utf8(s.subrange(o1 as int, o1 + nlen)) {
            Err(DecodeError::InvalidUtf8)
        } else {
            Ok((vstd::utf8::decode_utf8(s.subrange(o1 as int, o1 + nlen)), (o1 + nlen) as nat))
        },
    }
}

/// Decode a length-prefixed UTF-8 name at `offset`.
pub fn decode_name(bytes: &[u8], offset: usize) -> (r: Result<(String, usize), DecodeError>)
    ensures
        ({
            let sr = spec_name(bytes@, offset as nat);
            match r {
                Ok((name, end)) => sr == Ok::<(Seq<char>, nat), DecodeError>((name@, end as nat))
                    && offset < end <= bytes@.len(),
                Err(e) => sr == Err::<(Seq<char>, nat), DecodeError>(e),
            }
        }),
{
    match uleb128_decode_u32(bytes, offset) {
        Err(e) => Err(e),
        Ok((nlen, o1)) => {
            if (nlen as u64) > (bytes.len() - o1) as u64 {
                return Err(DecodeError::UnexpectedEof);
            }
            let end = o1 + nlen as usize;
            let raw = slice_range_to_vec(bytes, o1, end);
            match vec_to_string(raw) {
                Some(name) => Ok((name, end)),
                None => Err(DecodeError::InvalidUtf8),
            }
        },
    }
}

} // verus!
