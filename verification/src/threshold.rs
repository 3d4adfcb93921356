//! The primary-slot weight threshold.
//!
//! A primary claim by an authority of weight `w` out of a total weight `T`
//! is entitled to the slot iff the VRF output, read as a fraction
//! `out / 2^64` of the output space, lies below `1 - (1 - c)^(w/T)`, where
//! `c = c_num / c_den` is the epoch's threshold constant. Raising both
//! sides of `1 - out/2^64 > ((c_den - c_num)/c_den)^(w/T)` to the power `T`
//! gives the equivalent integer inequality
//!
//! `(2^64 - out)^T * c_den^w > (c_den - c_num)^w * 2^(64*T)`
//!
//! which this module decides exactly, with no rounding, over base-2^64
//! big integers. The fixed-point representation of the output space is the
//! little-endian value of the first eight bytes of the VRF output.

use vstd::prelude::*;

verus! {

use vstd::arithmetic::power::{pow, lemma_pow_multiplies};
use vstd::arithmetic::power2::{pow2, lemma_pow2, lemma_pow2_adds, lemma_pow2_pos, lemma2_to64,
    lemma2_to64_rest};
use vstd::arithmetic::mul::{lemma_mul_inequality, lemma_mul_strict_inequality,
    lemma_mul_is_commutative, lemma_mul_is_associative, lemma_mul_upper_bound};
use vstd::arithmetic::div_mod::lemma_fundamental_div_mod;

/// Value of a little-endian sequence of base-2^64 limbs.
pub open spec fn limb_val(s: Seq<u64>) -> int
    decreases s.len(),
{
    if s.len() == 0 {
        0
    } else {
        limb_val(s.drop_last()) + (s.last() as int) * pow2((64 * (s.len() - 1)) as nat)
    }
}

/// Whether a primary claim passes the threshold: the exact integer form of
/// `out / 2^64 < 1 - ((c_den - c_num) / c_den)^(weight / total_weight)`.
pub open spec fn primary_claim_passes(
    out: int,
    weight: u64,
    total_weight: u128,
    c_num: u64,
    c_den: u64,
) -> bool {
    pow(0x1_0000_0000_0000_0000 - out, total_weight as nat) * pow(c_den as int, weight as nat)
        > pow(c_den - c_num, weight as nat) * (pow2((64 * total_weight) as nat) as int)
}

proof fn lemma_limb_val_push(s: Seq<u64>, x: u64)
    ensures
        limb_val(s.push(x)) == limb_val(s) + (x as int) * pow2((64 * s.len()) as nat),
{
    assert(s.push(x).drop_last() =~= s);
    assert(s.push(x).last() == x);
}

proof fn lemma_limb_val_bound(s: Seq<u64>)
    ensures
        0 <= limb_val(s) < pow2((64 * s.len()) as nat),
    decreases s.len(),
{
    if s.len() == 0 {
        assert(pow2(0) == 1) by {
            lemma2_to64();
        }
    } else {
        lemma_limb_val_bound(s.drop_last());
        let p: int = pow2((64 * (s.len() - 1)) as nat) as int;
        let b: int = 0x1_0000_0000_0000_0000;
        lemma2_to64();
        lemma2_to64_rest();
        lemma_pow2_adds((64 * (s.len() - 1)) as nat, 64);
        assert(pow2((64 * s.len()) as nat) == p * b);
        lemma_mul_inequality(s.last() as int, b - 1, p);
        assert((s.last() as int) * p <= (b - 1) * p);
        assert(limb_val(s) < p + (b - 1) * p);
        assert(p + (b - 1) * p == p * b) by (nonlinear_arith);
    }
}

/// If two equal-length limb sequences agree above position `j` and differ
/// at `j`, the one with the larger limb has the larger value.
proof fn lemma_limb_cmp(a: Seq<u64>, b: Seq<u64>, j: int)
    requires
        a.len() == b.len(),
        0 <= j < a.len(),
        forall|i: int| j < i < a.len() ==> a[i] == b[i],
        a[j] > b[j],
    ensures
        limb_val(a) > limb_val(b),
    decreases a.len(),
{
    if j == a.len() - 1 {
        let p: int = pow2((64 * j) as nat) as int;
        lemma_limb_val_bound(a.drop_last());
        lemma_limb_val_bound(b.drop_last());
        assert(a.drop_last().len() == j && b.drop_last().len() == j);
        lemma_mul_inequality(b[j] + 1, a[j] as int, p);
        assert((b[j] + 1) * p == (b[j] as int) * p + p) by (nonlinear_arith);
        assert(limb_val(b) < (b[j] as int) * p + p);
        assert(limb_val(a) >= (a[j] as int) * p);
    } else {
        assert(a.last() == b.last());
        assert(forall|i: int| j < i < a.drop_last().len() ==> a.drop_last()[i] == b.drop_last()[i]);
        assert(a.drop_last()[j] == a[j] && b.drop_last()[j] == b[j]);
        lemma_limb_cmp(a.drop_last(), b.drop_last(), j);
    }
}

/// Multiplies a limb sequence by a single limb, exactly.
#[verifier::loop_isolation(false)]
fn mul_limb(a: &Vec<u64>, d: u64) -> (r: Vec<u64>)
    ensures
        limb_val(r@) == limb_val(a@) * (d as int),
        r@.len() == a@.len() + 1,
{
    let base: u128 = 0x1_0000_0000_0000_0000;
    let mut out: Vec<u64> = Vec::new();
    let mut carry: u64 = 0;
    let mut i: usize = 0;
    let n = a.len();
    proof {
        assert(a@.take(0) =~= Seq::<u64>::empty());
    }
    while i < n
        invariant
            i <= n,
            n == a@.len(),
            out@.len() == i,
            limb_val(out@) + (carry as int) * (pow2((64 * i) as nat) as int) == limb_val(
                a@.take(i as int),
            ) * (d as int),
        decreases n - i,
    {
        let ai = a[i];
        proof {
            lemma_mul_upper_bound(ai as int, 0xFFFF_FFFF_FFFF_FFFF, d as int, 0xFFFF_FFFF_FFFF_FFFF);
        }
        let p: u128 = (ai as u128) * (d as u128) + (carry as u128);
        let lo: u64 = (p % base) as u64;
        let hi: u64 = (p / base) as u64;
        proof {
            lemma_fundamental_div_mod(p as int, base as int);
            let bi: int = base as int;
            let p2: int = pow2((64 * i) as nat) as int;
            let vout: int = limb_val(out@);
            let vt: int = limb_val(a@.take(i as int));
            lemma_limb_val_push(out@, lo);
            lemma_pow2_adds((64 * i) as nat, 64);
            lemma2_to64();
            lemma2_to64_rest();
            assert(pow2((64 * (i + 1)) as nat) == p2 * bi);
            assert(a@.take(i + 1 as int).drop_last() =~= a@.take(i as int));
            assert(a@.take(i + 1 as int).last() == a@[i as int]);
            assert(limb_val(a@.take(i + 1 as int)) == vt + (ai as int) * p2);
            assert(vout + (lo as int) * p2 + (hi as int) * (p2 * bi) == (vt + (ai as int) * p2) * (
            d as int)) by (nonlinear_arith)
                requires
                    vout + (carry as int) * p2 == vt * (d as int),
                    (lo as int) + bi * (hi as int) == (ai as int) * (d as int) + (carry as int),
            ;
        }
        out.push(lo);
        carry = hi;
        i = i + 1;
    }
    proof {
        assert(a@.take(n as int) =~= a@);
        lemma_limb_val_push(out@, carry);
    }
    out.push(carry);
    out
}

/// Decides whether one limb value exceeds another of the same width.
fn limbs_gt(a: &Vec<u64>, b: &Vec<u64>) -> (r: bool)
    requires
        a@.len() == b@.len(),
    ensures
        r == (limb_val(a@) > limb_val(b@)),
{
    let mut k = a.len();
    while k > 0
        invariant
            k <= a@.len(),
            a@.len() == b@.len(),
            forall|i: int| k <= i < a@.len() ==> a@[i] == b@[i],
        decreases k,
    {
        k = k - 1;
        if a[k] > b[k] {
            proof {
                lemma_limb_cmp(a@, b@, k as int);
            }
            return true;
        }
        if a[k] < b[k] {
            proof {
                lemma_limb_cmp(b@, a@, k as int);
            }
            return false;
        }
    }
    proof {
        assert(a@ =~= b@);
    }
    false
}

/// `pow(x, e+1) == pow(x, e) * x`, unfolded for the loop proofs.
proof fn lemma_pow_step(x: int, e: nat)
    ensures
        pow(x, e + 1) == pow(x, e) * x,
{
    vstd::arithmetic::power::lemma_pow_adds(x, e, 1);
    vstd::arithmetic::power::lemma_pow1(x);
}

/// A strictly larger nonnegative base gives a strictly larger positive power.
proof fn lemma_pow_lt_base(x: int, y: int, e: nat)
    requires
        0 <= x < y,
        e >= 1,
    ensures
        pow(x, e) < pow(y, e),
    decreases e,
{
    if e == 1 {
        vstd::arithmetic::power::lemma_pow1(x);
        vstd::arithmetic::power::lemma_pow1(y);
    } else {
        lemma_pow_lt_base(x, y, (e - 1) as nat);
        lemma_pow_step(x, (e - 1) as nat);
        lemma_pow_step(y, (e - 1) as nat);
        vstd::arithmetic::power::lemma_pow_positive(y, (e - 1) as nat);
        if x == 0 {
            if e == 1 {
                vstd::arithmetic::power::lemma_pow0(x);
            } else {
                vstd::arithmetic::power::lemma0_pow((e - 1) as nat);
            }
        } else {
            vstd::arithmetic::power::lemma_pow_positive(x, (e - 1) as nat);
        }
        let px: int = pow(x, (e - 1) as nat);
        let py: int = pow(y, (e - 1) as nat);
        assert(px * x < py * y) by (nonlinear_arith)
            requires
                0 <= x < y,
                0 <= px < py,
                py >= 1,
        ;
    }
}

/// Decides the primary-slot threshold, exactly. `out` is the little-endian
/// value of the first eight bytes of the VRF output.
#[verifier::loop_isolation(false)]
pub fn check_primary_threshold(
    out: u64,
    weight: u64,
    total_weight: u128,
    c_num: u64,
    c_den: u64,
) -> (r: bool)
    requires
        weight >= 1,
        total_weight >= 1,
        1 <= c_num <= c_den,
    ensures
        r == primary_claim_passes(out as int, weight, total_weight, c_num, c_den),
{
    let q: u64 = c_den - c_num;
    let ghost tw = total_weight as nat;
    let ghost wn = weight as nat;
    if out == 0 {
        proof {
            let b: int = 0x1_0000_0000_0000_0000;
            lemma2_to64();
            lemma2_to64_rest();
            lemma_pow2(64);
            lemma_pow_multiplies(2, 64, tw);
            lemma_pow2((64 * total_weight) as nat);
            assert(pow(b, tw) == pow2((64 * total_weight) as nat) as int);
            lemma_pow_lt_base(q as int, c_den as int, wn);
            lemma_pow2_pos((64 * total_weight) as nat);
            vstd::arithmetic::power::lemma_pow_positive(b, tw);
            lemma_mul_strict_inequality(
                pow(q as int, wn),
                pow(c_den as int, wn),
                pow2((64 * total_weight) as nat) as int,
            );
            lemma_mul_is_commutative(pow(b, tw), pow(c_den as int, wn));
            lemma_mul_is_commutative(pow(q as int, wn), pow2((64 * total_weight) as nat) as int);
        }
        return true;
    }
    let base: u64 = ((0x1_0000_0000_0000_0000u128 - (out as u128)) as u64);
    // lhs = (2^64 - out)^T * c_den^w
    let mut lhs: Vec<u64> = Vec::new();
    proof {
        lemma_limb_val_push(Seq::<u64>::empty(), 1);
        lemma2_to64();
    }
    lhs.push(1);
    proof {
        assert(limb_val(lhs@) == 1);
        vstd::arithmetic::power::lemma_pow0(base as int);
    }
    let mut i: u128 = 0;
    while i < total_weight
        invariant
            i <= total_weight,
            lhs@.len() == 1 + i,
            limb_val(lhs@) == pow(base as int, i as nat),
        decreases total_weight - i,
    {
        lhs = mul_limb(&lhs, base);
        proof {
            lemma_pow_step(base as int, i as nat);
        }
        i = i + 1;
    }
    proof {
        vstd::arithmetic::power::lemma_pow0(c_den as int);
    }
    let mut j: u64 = 0;
    while j < weight
        invariant
            j <= weight,
            lhs@.len() == 1 + total_weight + j,
            limb_val(lhs@) == pow(base as int, tw) * pow(c_den as int, j as nat),
        decreases weight - j,
    {
        lhs = mul_limb(&lhs, c_den);
        proof {
            lemma_pow_step(c_den as int, j as nat);
            lemma_mul_is_associative(pow(base as int, tw), pow(c_den as int, j as nat), c_den as int);
        }
        j = j + 1;
    }
    // rhs = (c_den - c_num)^w * 2^(64*T): w+1 limbs of q^w after T zero limbs
    let mut rhs_low: Vec<u64> = Vec::new();
    proof {
        lemma_limb_val_push(Seq::<u64>::empty(), 1);
        lemma2_to64();
    }
    rhs_low.push(1);
    proof {
        assert(limb_val(rhs_low@) == 1);
        vstd::arithmetic::power::lemma_pow0(q as int);
    }
    let mut j2: u64 = 0;
    while j2 < weight
        invariant
            j2 <= weight,
            rhs_low@.len() == 1 + j2,
            limb_val(rhs_low@) == pow(q as int, j2 as nat),
        decreases weight - j2,
    {
        rhs_low = mul_limb(&rhs_low, q);
        proof {
            lemma_pow_step(q as int, j2 as nat);
        }
        j2 = j2 + 1;
    }
    let mut rhs: Vec<u64> = Vec::new();
    let mut z: u128 = 0;
    while z < total_weight
        invariant
            z <= total_weight,
            rhs@.len() == z,
            limb_val(rhs@) == 0,
        decreases total_weight - z,
    {
        proof {
            lemma_limb_val_push(rhs@, 0);
        }
        rhs.push(0);
        z = z + 1;
    }
    let ghost shift = pow2((64 * total_weight) as nat) as int;
    let mut m: usize = 0;
    let nlow = rhs_low.len();
    proof {
        assert(rhs_low@.take(0) =~= Seq::<u64>::empty());
    }
    while m < nlow
        invariant
            m <= nlow,
            nlow == rhs_low@.len(),
            rhs@.len() == total_weight + m,
            limb_val(rhs@) == shift * limb_val(rhs_low@.take(m as int)),
        decreases nlow - m,
    {
        let x = rhs_low[m];
        proof {
            lemma_limb_val_push(rhs@, x);
            lemma_pow2_adds((64 * total_weight) as nat, (64 * m) as nat);
            let pm: int = pow2((64 * m) as nat) as int;
            let vt: int = limb_val(rhs_low@.take(m as int));
            assert(rhs_low@.take(m + 1 as int).drop_last() =~= rhs_low@.take(m as int));
            assert(rhs_low@.take(m + 1 as int).last() == rhs_low@[m as int]);
            assert(limb_val(rhs_low@.take(m + 1 as int)) == vt + (x as int) * pm);
            assert(shift * vt + (x as int) * (shift * pm) == shift * (vt + (x as int) * pm))
                by (nonlinear_arith);
        }
        rhs.push(x);
        m = m + 1;
    }
    proof {
        assert(rhs_low@.take(nlow as int) =~= rhs_low@);
        assert(limb_val(rhs@) == shift * pow(q as int, wn));
        lemma_mul_is_commutative(shift, pow(q as int, wn));
        assert(base as int == 0x1_0000_0000_0000_0000 - out);
    }
    limbs_gt(&lhs, &rhs)
}

} // verus!
