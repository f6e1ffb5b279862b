//! Arbitrary-precision signed decimals.
//!
//! A [`Decimal`] represents `(-1)^negative * magnitude * 10^(-scale)`: the
//! magnitude is an unbounded little-endian byte integer, and a positive
//! `scale` moves the point left while a negative one multiplies the value up.

use crate::bignum::{le_nat, mag_cmp, mag_is_zero, mul10, NumOrder};
use vstd::arithmetic::power::{lemma_pow0, lemma_pow_adds, lemma_pow_positive, pow};
use vstd::prelude::*;

verus! {

/// An arbitrary-precision signed decimal number.
pub struct Decimal {
    /// True when the value is below zero.
    pub negative: bool,
    /// Unscaled magnitude as a little-endian byte string.
    pub magnitude: Vec<u8>,
    /// Decimal exponent: the value is `magnitude * 10^(-scale)`.
    pub scale: i64,
}

/// The mathematical content of a [`Decimal`].
pub struct DecimalView {
    /// True when the value is below zero.
    pub negative: bool,
    /// Unscaled magnitude, little-endian.
    pub magnitude: Seq<u8>,
    /// Decimal exponent.
    pub scale: int,
}

impl View for Decimal {
    type V = DecimalView;

    open spec fn view(&self) -> DecimalView {
        DecimalView {
            negative: self.negative,
            magnitude: self.magnitude@,
            scale: self.scale as int,
        }
    }
}

/// The unscaled magnitude of a decimal.
pub open spec fn mag_value(d: DecimalView) -> nat {
    le_nat(d.magnitude)
}

/// Whether the decimal's value is zero, whatever its scale or sign bit.
pub open spec fn dec_is_zero(d: DecimalView) -> bool {
    mag_value(d) == 0
}

/// Whether the decimal's value is strictly above zero.
pub open spec fn dec_is_positive(d: DecimalView) -> bool {
    !d.negative && mag_value(d) > 0
}

/// The magnitude lifted to a common scale `m`, which must be at least the
/// decimal's own scale.
pub open spec fn mag_at_scale(d: DecimalView, m: int) -> int
    recommends
        m >= d.scale,
{
    le_nat(d.magnitude) * pow(10, (m - d.scale) as nat)
}

/// The signed value at common scale `m`.
pub open spec fn signed_at_scale(d: DecimalView, m: int) -> int {
    if d.negative {
        -mag_at_scale(d, m)
    } else {
        mag_at_scale(d, m)
    }
}

/// The larger of two decimals' scales: lifting both magnitudes to it keeps
/// the exponents nonnegative so the comparison stays within integers.
pub open spec fn common_scale(a: DecimalView, b: DecimalView) -> int {
    if a.scale >= b.scale {
        a.scale
    } else {
        b.scale
    }
}

/// Value order: `a` is strictly below `b`.
pub open spec fn dec_lt(a: DecimalView, b: DecimalView) -> bool {
    signed_at_scale(a, common_scale(a, b)) < signed_at_scale(b, common_scale(a, b))
}

/// Value equality, indifferent to representation (trailing zero bytes,
/// rescaling, and the sign of zero).
pub open spec fn dec_eq_val(a: DecimalView, b: DecimalView) -> bool {
    signed_at_scale(a, common_scale(a, b)) == signed_at_scale(b, common_scale(a, b))
}

impl Clone for Decimal {
    /// Clones the decimal, preserving its value and representation.
    fn clone(&self) -> (r: Self)
        ensures
            r@ == self@,
    {
        Decimal { negative: self.negative, magnitude: copy_mag(&self.magnitude), scale: self.scale }
    }
}

/// Copies a magnitude byte-for-byte.
pub fn copy_mag(v: &Vec<u8>) -> (r: Vec<u8>)
    ensures
        r@ == v@,
{
    let mut out: Vec<u8> = Vec::new();
    let mut i: usize = 0;
    while i < v.len()
        invariant
            0 <= i <= v@.len(),
            out@ == v@.subrange(0, i as int),
        decreases v@.len() - i,
    {
        out.push(v[i]);
        proof {
            assert(out@ =~= v@.subrange(0, i + 1));
        }
        i = i + 1;
    }
    proof {
        assert(v@.subrange(0, v@.len() as int) =~= v@);
    }
    out
}

impl Decimal {
    /// Builds a decimal from its parts.
    pub fn new(negative: bool, magnitude: Vec<u8>, scale: i64) -> (d: Decimal)
        ensures
            d@.negative == negative,
            d@.magnitude == magnitude@,
            d@.scale == scale,
    {
        Decimal { negative, magnitude, scale }
    }

    /// Builds a decimal from an unscaled 128-bit magnitude and a scale, so
    /// the value is `unscaled * 10^(-scale)`, negated when asked.
    pub fn from_parts(negative: bool, unscaled: u128, scale: i64) -> (d: Decimal)
        ensures
            d@.negative == negative,
            mag_value(d@) == unscaled as nat,
            d@.scale == scale,
    {
        Decimal { negative, magnitude: crate::bignum::u128_to_le_bytes(unscaled), scale }
    }

    /// Whether the value is strictly above zero.
    pub fn is_positive(&self) -> (r: bool)
        ensures
            r == dec_is_positive(self@),
    {
        !self.negative && !mag_is_zero(&self.magnitude)
    }

    /// Whether the value is zero.
    pub fn is_zero(&self) -> (r: bool)
        ensures
            r == dec_is_zero(self@),
    {
        mag_is_zero(&self.magnitude)
    }
}

/// Multiplies a magnitude by `10^k`.
pub fn scale_mag_up(v: &Vec<u8>, k: u64) -> (r: Vec<u8>)
    ensures
        le_nat(r@) == le_nat(v@) * pow(10, k as nat),
{
    if mag_is_zero(v) {
        proof {
            lemma_pow_positive(10, k as nat);
        }
        return Vec::new();
    }
    let mut cur = copy_mag(v);
    let mut j: u64 = 0;
    proof {
        lemma_pow0(10);
    }
    while j < k
        invariant
            0 <= j <= k,
            le_nat(cur@) == le_nat(v@) * pow(10, j as nat),
        decreases k - j,
    {
        let next = mul10(&cur);
        proof {
            lemma_pow_adds(10, j as nat, 1);
            vstd::arithmetic::power::lemma_pow1(10);
            assert(10 * (le_nat(v@) * pow(10, j as nat)) == le_nat(v@) * (pow(10, j as nat) * pow(
                10,
                1,
            ))) by (nonlinear_arith)
                requires
                    pow(10, 1) == 10,
            ;
        }
        cur = next;
        j = j + 1;
    }
    cur
}

/// Compares two decimals by value.
pub fn dec_cmp(a: &Decimal, b: &Decimal) -> (r: NumOrder)
    ensures
        r == NumOrder::Less <==> dec_lt(a@, b@),
        r == NumOrder::Equal <==> dec_eq_val(a@, b@),
        r == NumOrder::Greater <==> dec_lt(b@, a@),
{
    let ghost m = common_scale(a@, b@);
    proof {
        lemma_pow_positive(10, (m - a@.scale) as nat);
        lemma_pow_positive(10, (m - b@.scale) as nat);
        lemma_mag_at_scale_zero(a@, m);
        lemma_mag_at_scale_zero(b@, m);
    }
    let az = mag_is_zero(&a.magnitude);
    let bz = mag_is_zero(&b.magnitude);
    if az && bz {
        return NumOrder::Equal;
    }
    if az {
        if b.negative {
            return NumOrder::Greater;
        }
        return NumOrder::Less;
    }
    if bz {
        if a.negative {
            return NumOrder::Less;
        }
        return NumOrder::Greater;
    }
    if a.negative && !b.negative {
        return NumOrder::Less;
    }
    if !a.negative && b.negative {
        return NumOrder::Greater;
    }
    // Same sign, both nonzero: compare magnitudes at the common scale.
    let (ma, mb) = align_magnitudes(a, b);
    let cmp = mag_cmp(&ma, &mb);
    if a.negative {
        match cmp {
            NumOrder::Less => NumOrder::Greater,
            NumOrder::Equal => NumOrder::Equal,
            NumOrder::Greater => NumOrder::Less,
        }
    } else {
        cmp
    }
}

/// Lifts both magnitudes to the common scale.
fn align_magnitudes(a: &Decimal, b: &Decimal) -> (r: (Vec<u8>, Vec<u8>))
    ensures
        le_nat(r.0@) == mag_at_scale(a@, common_scale(a@, b@)),
        le_nat(r.1@) == mag_at_scale(b@, common_scale(a@, b@)),
{
    proof {
        lemma_pow0(10);
    }
    if a.scale >= b.scale {
        let shift: u64 = scale_gap(a.scale, b.scale);
        (copy_mag(&a.magnitude), scale_mag_up(&b.magnitude, shift))
    } else {
        let shift: u64 = scale_gap(b.scale, a.scale);
        (scale_mag_up(&a.magnitude, shift), copy_mag(&b.magnitude))
    }
}

/// The nonnegative gap between two scales.
fn scale_gap(hi: i64, lo: i64) -> (r: u64)
    requires
        hi >= lo,
    ensures
        r == hi - lo,
{
    let wide: i128 = (hi as i128) - (lo as i128);
    wide as u64
}

/// Lifting a signed value from one admissible scale to a higher one scales
/// it by the corresponding power of ten.
proof fn lemma_signed_at_scale_shift(d: DecimalView, c: int, m: int)
    requires
        d.scale <= c <= m,
    ensures
        signed_at_scale(d, m) == signed_at_scale(d, c) * pow(10, (m - c) as nat),
{
    lemma_pow_adds(10, (c - d.scale) as nat, (m - c) as nat);
    assert(le_nat(d.magnitude) * (pow(10, (c - d.scale) as nat) * pow(10, (m - c) as nat)) == (
    le_nat(d.magnitude) * pow(10, (c - d.scale) as nat)) * pow(10, (m - c) as nat))
        by (nonlinear_arith);
    assert(mag_at_scale(d, m) == mag_at_scale(d, c) * pow(10, (m - c) as nat));
    if d.negative {
        assert(-(mag_at_scale(d, c) * pow(10, (m - c) as nat)) == (-mag_at_scale(d, c)) * pow(
            10,
            (m - c) as nat,
        )) by (nonlinear_arith);
    }
}

/// Law: the order and equality of decimals do not depend on the common scale
/// they are compared at — any scale at least both of their own scales gives
/// the same verdict as the canonical one.
pub proof fn lemma_order_scale_invariant(a: DecimalView, b: DecimalView, m: int)
    requires
        m >= a.scale,
        m >= b.scale,
    ensures
        (signed_at_scale(a, m) < signed_at_scale(b, m)) == dec_lt(a, b),
        (signed_at_scale(a, m) == signed_at_scale(b, m)) == dec_eq_val(a, b),
{
    let c = common_scale(a, b);
    lemma_signed_at_scale_shift(a, c, m);
    lemma_signed_at_scale_shift(b, c, m);
    lemma_pow_positive(10, (m - c) as nat);
    let p = pow(10, (m - c) as nat);
    let u = signed_at_scale(a, c);
    let v = signed_at_scale(b, c);
    assert((u * p < v * p) == (u < v) && (u * p == v * p) == (u == v)) by (nonlinear_arith)
        requires
            p > 0,
    ;
}

/// A zero magnitude stays zero at any scale, and a nonzero one stays nonzero.
proof fn lemma_mag_at_scale_zero(d: DecimalView, m: int)
    ensures
        mag_at_scale(d, m) == 0 <==> mag_value(d) == 0,
{
    lemma_pow_positive(10, (m - d.scale) as nat);
    assert(le_nat(d.magnitude) * pow(10, (m - d.scale) as nat) == 0 <==> le_nat(d.magnitude) == 0)
        by (nonlinear_arith)
        requires
            pow(10, (m - d.scale) as nat) > 0,
    ;
}

} // verus!
