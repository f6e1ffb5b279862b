//! Unbounded unsigned integers as little-endian byte strings.
//!
//! A magnitude is a `Vec<u8>` whose byte at index `i` carries weight `256^i`.
//! Trailing zero bytes are allowed and do not change the value.

use vstd::arithmetic::power::{lemma_pow0, lemma_pow1, lemma_pow_adds, lemma_pow_positive, pow};
use vstd::prelude::*;

verus! {

/// The value of a little-endian byte string.
pub open spec fn le_nat(s: Seq<u8>) -> nat
    decreases s.len(),
{
    if s.len() == 0 {
        0
    } else {
        s[0] as nat + 256 * le_nat(s.drop_first())
    }
}

/// Appending byte strings adds the second value, scaled by the weight of the
/// first string's length.
pub proof fn lemma_le_nat_append(s: Seq<u8>, t: Seq<u8>)
    ensures
        le_nat(s + t) == le_nat(s) + pow(256, s.len()) * le_nat(t),
    decreases s.len(),
{
    if s.len() == 0 {
        assert(s + t =~= t);
        lemma_pow0(256);
    } else {
        assert((s + t).drop_first() =~= s.drop_first() + t);
        lemma_le_nat_append(s.drop_first(), t);
        assert(pow(256, s.len()) == 256 * pow(256, (s.len() - 1) as nat)) by {
            lemma_pow_adds(256, 1, (s.len() - 1) as nat);
            lemma_pow1(256);
        }
        assert(256 * (le_nat(s.drop_first()) + pow(256, (s.len() - 1) as nat) * le_nat(t))
            == 256 * le_nat(s.drop_first()) + 256 * (pow(256, (s.len() - 1) as nat) * le_nat(t)))
            by (nonlinear_arith);
        assert(256 * (pow(256, (s.len() - 1) as nat) * le_nat(t))
            == (256 * pow(256, (s.len() - 1) as nat)) * le_nat(t)) by (nonlinear_arith);
    }
}

/// Extending by one byte adds that byte at the weight of the old length.
pub proof fn lemma_le_nat_snoc(s: Seq<u8>, b: u8)
    ensures
        le_nat(s.push(b)) == le_nat(s) + pow(256, s.len()) * (b as nat),
{
    assert(s.push(b) =~= s + seq![b]);
    lemma_le_nat_append(s, seq![b]);
    assert(le_nat(seq![b]) == b) by {
        let single = seq![b];
        assert(single.len() == 1);
        assert(single.drop_first() =~= Seq::<u8>::empty());
        assert(le_nat(single.drop_first()) == 0);
        assert(le_nat(single) == single[0] as nat + 256 * le_nat(single.drop_first()));
    }
}

/// A byte string of length `n` holds a value below `256^n`.
pub proof fn lemma_le_nat_bound(s: Seq<u8>)
    ensures
        le_nat(s) < pow(256, s.len()),
    decreases s.len(),
{
    if s.len() == 0 {
        lemma_pow0(256);
    } else {
        lemma_le_nat_bound(s.drop_first());
        assert(pow(256, s.len()) == 256 * pow(256, (s.len() - 1) as nat)) by {
            lemma_pow_adds(256, 1, (s.len() - 1) as nat);
            lemma_pow1(256);
        }
        assert(256 * le_nat(s.drop_first()) + 255 < 256 * pow(256, (s.len() - 1) as nat)) by (
        nonlinear_arith)
            requires
                le_nat(s.drop_first()) < pow(256, (s.len() - 1) as nat),
        ;
    }
}

/// A byte string whose last byte is nonzero reaches the weight of that byte.
pub proof fn lemma_le_nat_msb(s: Seq<u8>)
    requires
        s.len() > 0,
        s.last() != 0,
    ensures
        le_nat(s) >= pow(256, (s.len() - 1) as nat),
{
    assert(s =~= s.drop_last().push(s.last()));
    lemma_le_nat_snoc(s.drop_last(), s.last());
    lemma_pow_positive(256, (s.len() - 1) as nat);
    assert(pow(256, (s.len() - 1) as nat) * (s.last() as nat) >= pow(256, (s.len() - 1) as nat))
        by (nonlinear_arith)
        requires
            s.last() as nat >= 1,
            pow(256, (s.len() - 1) as nat) > 0,
    ;
}

/// The value is zero exactly when every byte is zero.
pub proof fn lemma_le_nat_zero(s: Seq<u8>)
    ensures
        le_nat(s) == 0 <==> (forall|j: int| 0 <= j < s.len() ==> s[j] == 0),
    decreases s.len(),
{
    if s.len() > 0 {
        lemma_le_nat_zero(s.drop_first());
        if le_nat(s) == 0 {
            assert(forall|j: int|
                0 <= j < s.len() ==> s[j] == 0) by {
                assert(forall|j: int| 1 <= j < s.len() ==> s[j] == s.drop_first()[j - 1]);
            }
        } else {
            if forall|j: int| 0 <= j < s.len() ==> s[j] == 0 {
                assert(forall|j: int| 0 <= j < s.drop_first().len() ==> s.drop_first()[j] == 0);
            }
        }
    }
}

/// Dropping a trailing zero byte keeps the value.
pub proof fn lemma_le_nat_drop_trailing_zero(s: Seq<u8>)
    requires
        s.len() > 0,
        s.last() == 0,
    ensures
        le_nat(s.drop_last()) == le_nat(s),
{
    assert(s =~= s.drop_last().push(0));
    lemma_le_nat_snoc(s.drop_last(), 0);
}

/// Tests whether a magnitude is zero.
pub fn mag_is_zero(v: &Vec<u8>) -> (r: bool)
    ensures
        r <==> le_nat(v@) == 0,
{
    let mut i: usize = 0;
    while i < v.len()
        invariant
            0 <= i <= v@.len(),
            forall|j: int| 0 <= j < i ==> v@[j] == 0,
        decreases v@.len() - i,
    {
        if v[i] != 0 {
            proof {
                lemma_le_nat_zero(v@);
            }
            return false;
        }
        i = i + 1;
    }
    proof {
        lemma_le_nat_zero(v@);
    }
    true
}

/// The length of the magnitude once trailing zero bytes are ignored.
///
/// The prefix of that length carries the whole value, and its own last byte
/// is nonzero, so the value is pinned between two powers of 256.
pub fn trimmed_len(v: &Vec<u8>) -> (n: usize)
    ensures
        n <= v@.len(),
        le_nat(v@.subrange(0, n as int)) == le_nat(v@),
        n > 0 ==> v@[n - 1] != 0,
{
    let mut n: usize = v.len();
    proof {
        assert(v@.subrange(0, v@.len() as int) =~= v@);
    }
    while n > 0
        invariant
            0 <= n <= v@.len(),
            le_nat(v@.subrange(0, n as int)) == le_nat(v@),
        decreases n,
    {
        if v[n - 1] != 0 {
            return n;
        }
        proof {
            lemma_le_nat_drop_trailing_zero(v@.subrange(0, n as int));
            assert(v@.subrange(0, n as int).drop_last() =~= v@.subrange(0, n - 1));
        }
        n = n - 1;
    }
    n
}

/// Splitting a byte string at `k` splits its value at weight `256^k`.
pub proof fn lemma_le_nat_split(s: Seq<u8>, k: int)
    requires
        0 <= k <= s.len(),
    ensures
        le_nat(s) == le_nat(s.subrange(0, k)) + pow(256, k as nat) * le_nat(
            s.subrange(k, s.len() as int),
        ),
{
    assert(s =~= s.subrange(0, k) + s.subrange(k, s.len() as int));
    lemma_le_nat_append(s.subrange(0, k), s.subrange(k, s.len() as int));
}

/// Extending a prefix by one byte adds that byte at the prefix's weight.
pub proof fn lemma_le_nat_take_step(s: Seq<u8>, i: int)
    requires
        0 <= i < s.len(),
    ensures
        le_nat(s.subrange(0, i + 1)) == le_nat(s.subrange(0, i)) + pow(256, i as nat) * (
        s[i] as nat),
{
    assert(s.subrange(0, i + 1) =~= s.subrange(0, i).push(s[i]));
    lemma_le_nat_snoc(s.subrange(0, i), s[i]);
}

/// Unfolding the value of a suffix by its first byte.
pub proof fn lemma_le_nat_suffix_step(s: Seq<u8>, i: int)
    requires
        0 <= i < s.len(),
    ensures
        le_nat(s.subrange(i, s.len() as int)) == s[i] as nat + 256 * le_nat(
            s.subrange(i + 1, s.len() as int),
        ),
{
    let suf = s.subrange(i, s.len() as int);
    assert(suf.len() > 0);
    assert(suf.drop_first() =~= s.subrange(i + 1, s.len() as int));
    assert(suf[0] == s[i]);
}

/// Multiplies a magnitude by ten.
pub fn mul10(v: &Vec<u8>) -> (r: Vec<u8>)
    ensures
        le_nat(r@) == 10 * le_nat(v@),
        r@.len() <= v@.len() + 1,
{
    let mut out: Vec<u8> = Vec::new();
    let mut carry: u16 = 0;
    let mut i: usize = 0;
    proof {
        lemma_pow0(256);
        assert(v@.subrange(0, 0) =~= Seq::<u8>::empty());
    }
    while i < v.len()
        invariant
            0 <= i <= v@.len(),
            out@.len() == i,
            carry < 10,
            le_nat(out@) + (carry as nat) * pow(256, i as nat) == 10 * le_nat(
                v@.subrange(0, i as int),
            ),
        decreases v@.len() - i,
    {
        let ghost prev_out = out@;
        let ghost prev_carry = carry as nat;
        let b = v[i];
        let t: u16 = (b as u16) * 10 + carry;
        out.push((t % 256) as u8);
        carry = t / 256;
        proof {
            lemma_le_nat_snoc(prev_out, (t % 256) as u8);
            lemma_le_nat_take_step(v@, i as int);
            lemma_pow1(256);
            lemma_pow_adds(256, i as nat, 1);
            let p = pow(256, i as nat);
            assert(t as nat == (t % 256) as nat + 256 * ((t / 256) as nat));
            assert(le_nat(out@) + (carry as nat) * pow(256, (i + 1) as nat) == 10 * le_nat(
                v@.subrange(0, i + 1),
            )) by (nonlinear_arith)
                requires
                    le_nat(out@) == le_nat(prev_out) + p * ((t % 256) as nat),
                    pow(256, (i + 1) as nat) == p * 256,
                    carry as nat == (t / 256) as nat,
                    t as nat == (t % 256) as nat + 256 * ((t / 256) as nat),
                    t as nat == 10 * (b as nat) + prev_carry,
                    le_nat(prev_out) + prev_carry * p == 10 * le_nat(v@.subrange(0, i as int)),
                    le_nat(v@.subrange(0, i + 1)) == le_nat(v@.subrange(0, i as int)) + p * (
                    b as nat),
            ;
        }
        i = i + 1;
    }
    proof {
        assert(v@.subrange(0, v@.len() as int) =~= v@);
    }
    if carry > 0 {
        let ghost prev_out = out@;
        let ghost final_carry = carry as nat;
        out.push(carry as u8);
        proof {
            lemma_le_nat_snoc(prev_out, carry as u8);
            assert(pow(256, prev_out.len()) * final_carry == final_carry * pow(
                256,
                prev_out.len(),
            )) by (nonlinear_arith);
        }
    }
    out
}

/// Divides a magnitude by ten, returning quotient and remainder.
pub fn div10(v: &Vec<u8>) -> (r: (Vec<u8>, u8))
    ensures
        r.0@.len() == v@.len(),
        10 * le_nat(r.0@) + r.1 as nat == le_nat(v@),
        r.1 < 10,
{
    let n = v.len();
    let mut q: Vec<u8> = vec![0u8; n];
    let mut rem: u16 = 0;
    let mut i: usize = n;
    proof {
        assert(v@.subrange(n as int, n as int) =~= Seq::<u8>::empty());
        assert(q@.subrange(n as int, n as int) =~= Seq::<u8>::empty());
    }
    while i > 0
        invariant
            0 <= i <= n,
            q@.len() == n,
            v@.len() == n,
            rem < 10,
            10 * le_nat(q@.subrange(i as int, n as int)) + rem as nat == le_nat(
                v@.subrange(i as int, n as int),
            ),
        decreases i,
    {
        let ghost prev_q = q@;
        let ghost prev_rem = rem as nat;
        let cur: u16 = rem * 256 + (v[i - 1] as u16);
        q[i - 1] = (cur / 10) as u8;
        rem = cur % 10;
        proof {
            assert(q@.subrange(i as int, n as int) =~= prev_q.subrange(i as int, n as int));
            lemma_le_nat_suffix_step(q@, i - 1);
            lemma_le_nat_suffix_step(v@, i - 1);
            assert(cur as nat == 10 * ((cur / 10) as nat) + (cur % 10) as nat);
        }
        i = i - 1;
    }
    proof {
        assert(v@.subrange(0, n as int) =~= v@);
        assert(q@.subrange(0, n as int) =~= q@);
    }
    (q, rem as u8)
}

/// Outcome of comparing two numeric values.
#[derive(Clone, Copy, Debug, PartialEq, Eq, Structural)]
pub enum NumOrder {
    /// The first value is smaller.
    Less,
    /// The values are equal.
    Equal,
    /// The first value is larger.
    Greater,
}

/// Compares the values of two magnitudes.
pub fn mag_cmp(a: &Vec<u8>, b: &Vec<u8>) -> (r: NumOrder)
    ensures
        r == NumOrder::Less <==> le_nat(a@) < le_nat(b@),
        r == NumOrder::Equal <==> le_nat(a@) == le_nat(b@),
        r == NumOrder::Greater <==> le_nat(a@) > le_nat(b@),
{
    let na = trimmed_len(a);
    let nb = trimmed_len(b);
    if na < nb {
        proof {
            lemma_mag_len_dominates(a@, b@, na as int, nb as int);
        }
        return NumOrder::Less;
    }
    if nb < na {
        proof {
            lemma_mag_len_dominates(b@, a@, nb as int, na as int);
        }
        return NumOrder::Greater;
    }
    let mut i: usize = na;
    while i > 0
        invariant
            0 <= i <= na,
            na == nb,
            na <= a@.len(),
            nb <= b@.len(),
            le_nat(a@.subrange(0, na as int)) == le_nat(a@),
            le_nat(b@.subrange(0, nb as int)) == le_nat(b@),
            a@.subrange(i as int, na as int) =~= b@.subrange(i as int, nb as int),
        decreases i,
    {
        let x = a[i - 1];
        let y = b[i - 1];
        if x < y {
            proof {
                lemma_mag_prefix_decides(a@, b@, na as int, i - 1);
            }
            return NumOrder::Less;
        }
        if y < x {
            proof {
                lemma_mag_prefix_decides(b@, a@, na as int, i - 1);
            }
            return NumOrder::Greater;
        }
        proof {
            assert forall|j: int| 0 <= j < na - (i - 1) implies #[trigger] a@.subrange(
                i - 1,
                na as int,
            )[j] == b@.subrange(i - 1, nb as int)[j] by {
                if j > 0 {
                    assert(a@.subrange(i - 1, na as int)[j] == a@.subrange(i as int, na as int)[j
                        - 1]);
                    assert(b@.subrange(i - 1, nb as int)[j] == b@.subrange(i as int, nb as int)[j
                        - 1]);
                }
            }
            assert(a@.subrange(i - 1, na as int) =~= b@.subrange(i - 1, nb as int));
        }
        i = i - 1;
    }
    proof {
        assert(a@.subrange(0, na as int) =~= b@.subrange(0, nb as int));
    }
    NumOrder::Equal
}

/// A value that fits in fewer trimmed bytes is strictly smaller.
proof fn lemma_mag_len_dominates(a: Seq<u8>, b: Seq<u8>, na: int, nb: int)
    requires
        0 <= na < nb <= b.len(),
        na <= a.len(),
        le_nat(a.subrange(0, na)) == le_nat(a),
        le_nat(b.subrange(0, nb)) == le_nat(b),
        b[nb - 1] != 0,
    ensures
        le_nat(a) < le_nat(b),
{
    lemma_le_nat_bound(a.subrange(0, na));
    let bp = b.subrange(0, nb);
    assert(bp.last() == b[nb - 1]);
    lemma_le_nat_msb(bp);
    vstd::arithmetic::power::lemma_pow_increases(256, na as nat, (nb - 1) as nat);
}

/// Equal high bytes and a smaller byte below them decide the comparison.
proof fn lemma_mag_prefix_decides(a: Seq<u8>, b: Seq<u8>, n: int, i: int)
    requires
        0 <= i < n,
        n <= a.len(),
        n <= b.len(),
        le_nat(a.subrange(0, n)) == le_nat(a),
        le_nat(b.subrange(0, n)) == le_nat(b),
        a.subrange(i + 1, n) =~= b.subrange(i + 1, n),
        a[i] < b[i],
    ensures
        le_nat(a) < le_nat(b),
{
    let ap = a.subrange(0, n);
    let bp = b.subrange(0, n);
    lemma_le_nat_split(ap, i);
    lemma_le_nat_split(bp, i);
    assert(ap.subrange(i, n) =~= a.subrange(i, n));
    assert(bp.subrange(i, n) =~= b.subrange(i, n));
    assert(ap.subrange(0, i) =~= a.subrange(0, i));
    assert(bp.subrange(0, i) =~= b.subrange(0, i));
    lemma_le_nat_suffix_step(a, i);
    lemma_le_nat_suffix_step(b, i);
    assert(a.subrange(i + 1, a.len() as int).subrange(0, n - i - 1) =~= a.subrange(i + 1, n));
    assert(b.subrange(i + 1, b.len() as int).subrange(0, n - i - 1) =~= b.subrange(i + 1, n));
    let s = le_nat(a.subrange(i + 1, n));
    assert(le_nat(a.subrange(i, n)) == a[i] as nat + 256 * s) by {
        lemma_suffix_restrict(a, i, n);
    }
    assert(le_nat(b.subrange(i, n)) == b[i] as nat + 256 * s) by {
        lemma_suffix_restrict(b, i, n);
    }
    lemma_le_nat_bound(a.subrange(0, i));
    let p = pow(256, i as nat);
    assert(le_nat(a) < p * ((a[i] as nat) + 1 + 256 * s)) by (nonlinear_arith)
        requires
            le_nat(a) == le_nat(a.subrange(0, i)) + p * ((a[i] as nat) + 256 * s),
            le_nat(a.subrange(0, i)) < p,
    ;
    assert(p * ((a[i] as nat) + 1 + 256 * s) <= p * ((b[i] as nat) + 256 * s)) by (nonlinear_arith)
        requires
            (a[i] as nat) + 1 <= b[i] as nat,
            p >= 0,
    ;
    assert(le_nat(b) >= p * ((b[i] as nat) + 256 * s)) by (nonlinear_arith)
        requires
            le_nat(b) == le_nat(b.subrange(0, i)) + p * ((b[i] as nat) + 256 * s),
    ;
}

/// The numeric value of `256^16`, the weight just above sixteen bytes.
pub proof fn lemma_pow256_16()
    ensures
        pow(256, 16) == 0x100000000000000000000000000000000,
{
    reveal_with_fuel(pow, 17);
}

/// Serializes a 128-bit integer as sixteen little-endian bytes.
pub fn u128_to_le_bytes(x: u128) -> (r: Vec<u8>)
    ensures
        r@.len() == 16,
        le_nat(r@) == x as nat,
{
    let mut out: Vec<u8> = Vec::new();
    let mut cur: u128 = x;
    let mut i: usize = 0;
    proof {
        lemma_pow0(256);
    }
    while i < 16
        invariant
            0 <= i <= 16,
            out@.len() == i,
            le_nat(out@) + (cur as nat) * pow(256, i as nat) == x as nat,
            cur as nat * pow(256, i as nat) <= x as nat,
        decreases 16 - i,
    {
        let ghost prev_out = out@;
        let ghost prev_cur = cur as nat;
        out.push((cur % 256) as u8);
        cur = cur / 256;
        proof {
            lemma_le_nat_snoc(prev_out, (prev_cur % 256) as u8);
            lemma_pow1(256);
            lemma_pow_adds(256, i as nat, 1);
            let p = pow(256, i as nat);
            assert(le_nat(out@) + (cur as nat) * pow(256, (i + 1) as nat) == x as nat && (cur as nat)
                * pow(256, (i + 1) as nat) <= x as nat) by (nonlinear_arith)
                requires
                    le_nat(out@) == le_nat(prev_out) + p * ((prev_cur % 256) as nat),
                    pow(256, (i + 1) as nat) == p * 256,
                    cur as nat == prev_cur / 256,
                    prev_cur == (prev_cur % 256) + 256 * (prev_cur / 256),
                    le_nat(prev_out) + prev_cur * p == x as nat,
            ;
        }
        i = i + 1;
    }
    proof {
        if cur > 0 {
            lemma_pow256_16();
            assert((cur as nat) * pow(256, 16) >= pow(256, 16)) by (nonlinear_arith)
                requires
                    cur as nat >= 1,
                    pow(256, 16) > 0,
            ;
        }
    }
    out
}

/// Reads sixteen little-endian bytes as a 128-bit integer.
pub fn le_bytes_to_u128(v: &Vec<u8>, start: usize) -> (r: u128)
    requires
        start + 16 <= v@.len(),
    ensures
        r as nat == le_nat(v@.subrange(start as int, start + 16)),
{
    let n = v.len();
    let mut acc: u128 = 0;
    let mut k: usize = 16;
    proof {
        assert(v@.subrange(start + 16, start + 16) =~= Seq::<u8>::empty());
    }
    while k > 0
        invariant
            0 <= k <= 16,
            start + 16 <= n,
            n == v@.len(),
            acc as nat == le_nat(v@.subrange(start + k, start + 16)),
        decreases k,
    {
        proof {
            let suf = v@.subrange(start + k, start + 16);
            assert(suf =~= v@.subrange(start + k, v@.len() as int).subrange(0, 16 - k));
            lemma_le_nat_bound(suf);
            vstd::arithmetic::power::lemma_pow_increases(256, (16 - k) as nat, 15);
            lemma_pow256_16();
            lemma_pow1(256);
            lemma_pow_adds(256, 15, 1);
            assert(acc as nat * 256 <= (pow(256, 15) - 1) * 256) by (nonlinear_arith)
                requires
                    acc as nat <= pow(256, 15) - 1,
            ;
        }
        let b = v[start + k - 1];
        acc = acc * 256 + (b as u128);
        proof {
            lemma_suffix_restrict(v@, start + k - 1, start + 16);
        }
        k = k - 1;
    }
    acc
}

/// A suffix taken up to `n` equals the suffix of the prefix up to `n`.
proof fn lemma_suffix_restrict(s: Seq<u8>, i: int, n: int)
    requires
        0 <= i < n <= s.len(),
    ensures
        le_nat(s.subrange(i, n)) == s[i] as nat + 256 * le_nat(s.subrange(i + 1, n)),
{
    let suf = s.subrange(i, n);
    assert(suf.len() > 0);
    assert(suf.drop_first() =~= s.subrange(i + 1, n));
    assert(suf[0] == s[i]);
}

} // verus!
