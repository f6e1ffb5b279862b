//! Amount codec: decimal amounts to and from the on-chain 256-bit pair.
//!
//! The chain carries amounts as an unsigned 256-bit magnitude split into two
//! 128-bit little-endian words, each handed over as a signed 128-bit integer
//! with the same bit pattern. Encoding truncates any fractional part toward
//! zero (sub-unit precision is deliberately discarded); a magnitude that does
//! not fit in 32 bytes is rejected rather than silently truncated.

use crate::bignum::{
    le_nat, lemma_le_nat_bound, lemma_le_nat_msb, lemma_le_nat_split, lemma_le_nat_snoc,
    lemma_pow256_16, mag_is_zero, mul10, div10, trimmed_len, u128_to_le_bytes, le_bytes_to_u128,
};
use crate::decimal::{copy_mag, dec_eq_val, mag_value, Decimal, DecimalView};
use vstd::arithmetic::div_mod::{
    lemma_div_denominator, lemma_fundamental_div_mod_converse, lemma_small_div_converse,
};
use vstd::arithmetic::power::{
    lemma_pow0, lemma_pow1, lemma_pow_adds, lemma_pow_increases, lemma_pow_positive, pow,
};
use vstd::prelude::*;

verus! {

/// The amount's magnitude exceeds the 256 bits the chain representation holds.
#[derive(Clone, Copy, Debug, PartialEq, Eq, Structural)]
pub struct EncodingError;

/// The first value outside the 256-bit range.
pub open spec fn u256_limit() -> int {
    pow(256, 32)
}

/// The integer part of a decimal's value, truncated toward zero, ignoring
/// the sign: a nonnegative scale divides the magnitude, a negative one
/// multiplies it.
pub open spec fn truncated_units(d: DecimalView) -> nat {
    if d.scale <= 0 {
        (le_nat(d.magnitude) * pow(10, (-d.scale) as nat)) as nat
    } else {
        le_nat(d.magnitude) / (pow(10, d.scale as nat) as nat)
    }
}

/// The unsigned value carried by a signed 128-bit word's bit pattern.
pub open spec fn word_as_unsigned(w: i128) -> nat {
    if w >= 0 {
        w as nat
    } else {
        (w + 0x100000000000000000000000000000000) as nat
    }
}

/// The 256-bit magnitude carried by a low/high pair of words.
pub open spec fn pair_value(low: i128, high: i128) -> nat {
    word_as_unsigned(low) + 0x100000000000000000000000000000000 * word_as_unsigned(high)
}

/// The low 128-bit half of a 256-bit magnitude.
pub open spec fn low_word(u: nat) -> nat {
    u % 0x100000000000000000000000000000000nat
}

/// The high 128-bit half of a 256-bit magnitude.
pub open spec fn high_word(u: nat) -> nat {
    u / 0x100000000000000000000000000000000nat
}

/// The two words of a pair are exactly the low and high halves of the
/// magnitude the pair carries.
pub proof fn lemma_pair_words(low: i128, high: i128)
    ensures
        word_as_unsigned(low) == low_word(pair_value(low, high)),
        word_as_unsigned(high) == high_word(pair_value(low, high)),
{
    let base = 0x100000000000000000000000000000000int;
    assert(word_as_unsigned(low) < base);
    assert(word_as_unsigned(high) < base);
    lemma_fundamental_div_mod_converse(
        pair_value(low, high) as int,
        base,
        word_as_unsigned(high) as int,
        word_as_unsigned(low) as int,
    );
}

/// Reinterprets an unsigned 128-bit word as the signed word with the same
/// bit pattern.
pub fn u128_to_word(x: u128) -> (w: i128)
    ensures
        word_as_unsigned(w) == x as nat,
{
    if x <= 0x7fffffffffffffffffffffffffffffffu128 {
        x as i128
    } else {
        i128::MIN + ((x - 0x80000000000000000000000000000000u128) as i128)
    }
}

/// Reinterprets a signed 128-bit word as the unsigned word with the same
/// bit pattern.
pub fn word_to_u128(w: i128) -> (x: u128)
    ensures
        x as nat == word_as_unsigned(w),
{
    if w >= 0 {
        w as u128
    } else {
        ((w - i128::MIN) as u128) + 0x80000000000000000000000000000000u128
    }
}

/// Multiplies a magnitude by `10^k`, stopping with an error as soon as the
/// running value can no longer fit in 32 bytes.
fn scale_up_capped(v: &Vec<u8>, k: u64) -> (r: Result<Vec<u8>, EncodingError>)
    ensures
        match r {
            Ok(w) => le_nat(w@) == le_nat(v@) * pow(10, k as nat),
            Err(_) => le_nat(v@) * pow(10, k as nat) >= u256_limit(),
        },
{
    if mag_is_zero(v) {
        proof {
            lemma_pow_positive(10, k as nat);
        }
        return Ok(Vec::new());
    }
    let mut cur = copy_mag(v);
    let mut j: u64 = 0;
    proof {
        lemma_pow0(10);
        lemma_pow_positive(10, k as nat);
    }
    while j < k
        invariant
            0 <= j <= k,
            le_nat(cur@) * pow(10, (k - j) as nat) == le_nat(v@) * pow(10, k as nat),
        decreases k - j,
    {
        let ghost prev = cur@;
        cur = mul10(&cur);
        proof {
            lemma_pow_adds(10, 1, (k - j - 1) as nat);
            lemma_pow1(10);
            assert((10 * le_nat(prev)) * pow(10, (k - j - 1) as nat) == le_nat(prev) * (10 * pow(
                10,
                (k - j - 1) as nat,
            ))) by (nonlinear_arith);
        }
        j = j + 1;
        let n = trimmed_len(&cur);
        if n > 32 && j < k {
            proof {
                lemma_oversized_stays_oversized(cur@, n as int, (k - j) as nat);
            }
            return Err(EncodingError);
        }
    }
    proof {
        lemma_pow0(10);
    }
    Ok(cur)
}

/// Once a magnitude exceeds 32 bytes, multiplying it further by powers of
/// ten keeps it at or above the 256-bit limit.
proof fn lemma_oversized_stays_oversized(s: Seq<u8>, n: int, e: nat)
    requires
        32 < n <= s.len(),
        le_nat(s.subrange(0, n)) == le_nat(s),
        s[n - 1] != 0,
    ensures
        le_nat(s) * pow(10, e) >= u256_limit(),
{
    let p = s.subrange(0, n);
    lemma_le_nat_msb(p);
    lemma_pow_increases(256, 32, (n - 1) as nat);
    lemma_pow_positive(10, e);
    lemma_pow_positive(256, 32);
    assert(le_nat(s) * pow(10, e) >= le_nat(s)) by (nonlinear_arith)
        requires
            pow(10, e) >= 1,
            le_nat(s) >= 0,
    ;
}

/// Divides a magnitude by `10^k`, truncating toward zero.
fn scale_down(v: &Vec<u8>, k: u64) -> (r: Vec<u8>)
    ensures
        le_nat(r@) == le_nat(v@) / (pow(10, k as nat) as nat),
{
    let mut cur = copy_mag(v);
    let mut j: u64 = 0;
    proof {
        lemma_pow0(10);
        vstd::arithmetic::div_mod::lemma_div_basics(le_nat(v@) as int);
    }
    while j < k
        invariant
            0 <= j <= k,
            le_nat(cur@) == le_nat(v@) / (pow(10, j as nat) as nat),
        decreases k - j,
    {
        proof {
            lemma_pow_positive(10, j as nat);
            lemma_pow_positive(10, k as nat);
            lemma_pow_increases(10, j as nat, k as nat);
        }
        if mag_is_zero(&cur) {
            proof {
                lemma_small_div_converse(le_nat(v@) as int, pow(10, j as nat));
                vstd::arithmetic::div_mod::lemma_basic_div(
                    le_nat(v@) as int,
                    pow(10, k as nat),
                );
            }
            j = k;
        } else {
            let ghost prev = cur@;
            let (q, rem) = div10(&cur);
            proof {
                lemma_fundamental_div_mod_converse(
                    le_nat(prev) as int,
                    10,
                    le_nat(q@) as int,
                    rem as int,
                );
                lemma_div_denominator(le_nat(v@) as int, pow(10, j as nat), 10);
                lemma_pow_adds(10, j as nat, 1);
                lemma_pow1(10);
            }
            cur = q;
            j = j + 1;
        }
    }
    cur
}

/// Copies the value-bearing prefix of a magnitude and zero-pads it to 32
/// bytes.
fn pad_to_32(v: &Vec<u8>, n: usize) -> (r: Vec<u8>)
    requires
        n <= 32,
        n <= v@.len(),
        le_nat(v@.subrange(0, n as int)) == le_nat(v@),
    ensures
        r@.len() == 32,
        le_nat(r@) == le_nat(v@),
{
    let mut out: Vec<u8> = Vec::new();
    let mut i: usize = 0;
    while i < n
        invariant
            0 <= i <= n,
            n <= v@.len(),
            out@ == v@.subrange(0, i as int),
        decreases n - i,
    {
        out.push(v[i]);
        proof {
            assert(out@ =~= v@.subrange(0, i + 1));
        }
        i = i + 1;
    }
    while i < 32
        invariant
            n <= i <= 32,
            out@.len() == i,
            le_nat(out@) == le_nat(v@.subrange(0, n as int)),
        decreases 32 - i,
    {
        let ghost prev = out@;
        out.push(0u8);
        proof {
            lemma_le_nat_snoc(prev, 0u8);
        }
        i = i + 1;
    }
    out
}

/// Encodes a decimal amount as the on-chain low/high pair.
///
/// The fractional part, if any, is truncated toward zero; the sign is
/// ignored (amounts in this system are positive by construction). Exactly
/// the values whose truncated magnitude needs more than 256 bits are
/// rejected.
pub fn to_onchain_pair(amount: &Decimal) -> (r: Result<(i128, i128), EncodingError>)
    ensures
        match r {
            Ok(pair) => pair_value(pair.0, pair.1) == truncated_units(amount@)
                && truncated_units(amount@) < u256_limit(),
            Err(_) => truncated_units(amount@) >= u256_limit(),
        },
{
    let adjusted: Vec<u8>;
    if amount.scale < 0 {
        let shift = negated_scale(amount.scale);
        match scale_up_capped(&amount.magnitude, shift) {
            Ok(w) => {
                adjusted = w;
            },
            Err(e) => {
                return Err(e);
            },
        }
    } else if amount.scale > 0 {
        adjusted = scale_down(&amount.magnitude, amount.scale as u64);
    } else {
        proof {
            lemma_pow0(10);
        }
        adjusted = copy_mag(&amount.magnitude);
    }
    let n = trimmed_len(&adjusted);
    if n > 32 {
        proof {
            let p = adjusted@.subrange(0, n as int);
            lemma_le_nat_msb(p);
            lemma_pow_increases(256, 32, (n - 1) as nat);
        }
        return Err(EncodingError);
    }
    let padded = pad_to_32(&adjusted, n);
    let low_u = le_bytes_to_u128(&padded, 0);
    let high_u = le_bytes_to_u128(&padded, 16);
    proof {
        lemma_le_nat_split(padded@, 16);
        lemma_pow256_16();
        lemma_le_nat_bound(padded@);
        assert(padded@.subrange(0, 16) =~= padded@.subrange(0int, 0int + 16));
        assert(pow(256, 32) == pow(256, 16) * pow(256, 16)) by {
            lemma_pow_adds(256, 16, 16);
        }
    }
    let low = u128_to_word(low_u);
    let high = u128_to_word(high_u);
    Ok((low, high))
}

/// The absolute value of a negative scale.
fn negated_scale(scale: i64) -> (r: u64)
    requires
        scale < 0,
    ensures
        r == -(scale as int),
{
    let wide: i128 = -(scale as i128);
    wide as u64
}

/// Reads a 256-bit magnitude, given as unsigned halves, as a nonnegative
/// integer decimal with scale zero.
pub fn u256_to_decimal(low: u128, high: u128) -> (d: Decimal)
    ensures
        d@.scale == 0,
        !d@.negative,
        mag_value(d@) == low as nat + 0x100000000000000000000000000000000 * (high as nat),
{
    let mut bytes = u128_to_le_bytes(low);
    let mut high_bytes = u128_to_le_bytes(high);
    let ghost lo_seq = bytes@;
    let ghost hi_seq = high_bytes@;
    bytes.append(&mut high_bytes);
    proof {
        crate::bignum::lemma_le_nat_append(lo_seq, hi_seq);
        lemma_pow256_16();
    }
    Decimal::new(false, bytes, 0)
}

/// Decodes the on-chain low/high pair back into a decimal.
///
/// The result is the plain 256-bit magnitude read as a nonnegative integer
/// with scale zero.
pub fn from_onchain_u256(low: i128, high: i128) -> (d: Decimal)
    ensures
        d@.scale == 0,
        !d@.negative,
        mag_value(d@) == pair_value(low, high),
{
    let low_u = word_to_u128(low);
    let high_u = word_to_u128(high);
    u256_to_decimal(low_u, high_u)
}

/// Round-trip law: decoding the encoded pair of an amount yields exactly the
/// amount's integer-truncated magnitude. For an amount that was already a
/// nonnegative integer (scale zero, not negative), the decoded decimal is
/// value-equal to that amount.
pub proof fn lemma_codec_round_trip(amount: DecimalView, low: i128, high: i128, rebuilt: DecimalView)
    requires
        pair_value(low, high) == truncated_units(amount),
        rebuilt.scale == 0,
        !rebuilt.negative,
        mag_value(rebuilt) == pair_value(low, high),
    ensures
        mag_value(rebuilt) == truncated_units(amount),
        crate::decimal::signed_at_scale(rebuilt, 0) == truncated_units(amount) as int,
        amount.scale == 0 && !amount.negative ==> dec_eq_val(rebuilt, amount),
{
    lemma_pow0(10);
    assert(crate::decimal::signed_at_scale(rebuilt, 0) == mag_value(rebuilt) as int * 1);
    if amount.scale == 0 && !amount.negative {
        assert(truncated_units(amount) == (le_nat(amount.magnitude) * 1) as nat);
    }
}

} // verus!
