use vstd::prelude::*;
use vstd::arithmetic::div_mod::{
    lemma_mod_bound, lemma_mul_mod_noop_general, lemma_small_mod,
};
use vstd::arithmetic::power2::{lemma2_to64, lemma_pow2_adds, pow2};

verus! {

/// The Mersenne prime 2^31 - 1, the modulus of the M31 field.
pub const M31_MODULUS: u32 = 0x7fff_ffff;

/// A value is a reduced M31 field element when it lies in [0, 2^31 - 1).
pub open spec fn is_m31(v: u32) -> bool {
    v < M31_MODULUS
}

/// Modular exponentiation in the M31 field, one multiplication at a time.
pub open spec fn m31_pow_spec(v: int, e: nat) -> int
    decreases e,
{
    if e == 0 {
        1
    } else {
        (v * m31_pow_spec(v, (e - 1) as nat)) % (M31_MODULUS as int)
    }
}

/// Multiplication in the M31 field.
pub fn mul_m31(a: u32, b: u32) -> (r: u32)
    requires
        is_m31(a),
        is_m31(b),
    ensures
        r == (a as int * b as int) % (M31_MODULUS as int),
        is_m31(r),
{
    proof {
        assert(a as int * b as int <= 0xffff_ffff * 0xffff_ffff) by (nonlinear_arith)
            requires
                a <= 0xffff_ffffu64,
                b <= 0xffff_ffffu64,
        ;
        lemma_mod_bound(a as int * b as int, M31_MODULUS as int);
    }
    (((a as u64) * (b as u64)) % (M31_MODULUS as u64)) as u32
}

/// Addition in the M31 field, fully reduced.
pub fn add_m31(a: u32, b: u32) -> (r: u32)
    requires
        is_m31(a),
        is_m31(b),
    ensures
        r == (a as int + b as int) % (M31_MODULUS as int),
        is_m31(r),
{
    let s: u64 = (a as u64) + (b as u64);
    if s >= (M31_MODULUS as u64) {
        proof {
            lemma_mod_bound(a as int + b as int, M31_MODULUS as int);
        }
        (s - (M31_MODULUS as u64)) as u32
    } else {
        proof {
            lemma_small_mod((a + b) as nat, M31_MODULUS as nat);
        }
        s as u32
    }
}

/// Subtraction in the M31 field, fully reduced.
pub fn sub_m31(a: u32, b: u32) -> (r: u32)
    requires
        is_m31(a),
        is_m31(b),
    ensures
        r == (M31_MODULUS as int + a as int - b as int) % (M31_MODULUS as int),
        is_m31(r),
{
    let s: u64 = (M31_MODULUS as u64) + (a as u64) - (b as u64);
    if s >= (M31_MODULUS as u64) {
        proof {
            lemma_mod_bound(M31_MODULUS as int + a as int - b as int, M31_MODULUS as int);
        }
        (s - (M31_MODULUS as u64)) as u32
    } else {
        proof {
            lemma_small_mod(s as nat, M31_MODULUS as nat);
        }
        s as u32
    }
}

/// The exponent laws the inversion chain rests on: powers multiply when
/// exponents add.
pub proof fn lemma_m31_pow_add(v: int, e1: nat, e2: nat)
    requires
        0 <= v,
    ensures
        m31_pow_spec(v, e1 + e2) == (m31_pow_spec(v, e1) * m31_pow_spec(v, e2)) % (
        M31_MODULUS as int),
    decreases e2,
{
    let m = M31_MODULUS as int;
    lemma_m31_pow_nonneg(v, e1);
    if e2 == 0 {
        if e1 == 0 {
            lemma_small_mod(1, m as nat);
        } else {
            lemma_mod_bound(v * m31_pow_spec(v, (e1 - 1) as nat), m);
            lemma_small_mod(m31_pow_spec(v, e1) as nat, m as nat);
        }
    } else {
        lemma_m31_pow_add(v, e1, (e2 - 1) as nat);
        lemma_m31_pow_nonneg(v, (e2 - 1) as nat);
        // m31_pow(v, e1 + e2) == (v * m31_pow(v, e1 + e2 - 1)) % m
        //                     == (v * ((m31_pow(v, e1) * m31_pow(v, e2 - 1)) % m)) % m
        lemma_mul_mod_noop_general(v, m31_pow_spec(v, e1) * m31_pow_spec(v, (e2 - 1) as nat), m);
        assert(v * (m31_pow_spec(v, e1) * m31_pow_spec(v, (e2 - 1) as nat)) == m31_pow_spec(v, e1)
            * (v * m31_pow_spec(v, (e2 - 1) as nat))) by (nonlinear_arith);
        lemma_mul_mod_noop_general(m31_pow_spec(v, e1), v * m31_pow_spec(v, (e2 - 1) as nat), m);
    }
}

/// A power of a nonnegative base is nonnegative.
pub proof fn lemma_m31_pow_nonneg(v: int, e: nat)
    requires
        0 <= v,
    ensures
        0 <= m31_pow_spec(v, e),
    decreases e,
{
    if e > 0 {
        lemma_m31_pow_nonneg(v, (e - 1) as nat);
        assert(0 <= v * m31_pow_spec(v, (e - 1) as nat)) by (nonlinear_arith)
            requires
                0 <= v,
                0 <= m31_pow_spec(v, (e - 1) as nat),
        ;
        lemma_mod_bound(v * m31_pow_spec(v, (e - 1) as nat), M31_MODULUS as int);
    }
}

/// A power with a positive exponent is reduced below the modulus.
pub proof fn lemma_m31_pow_bound(v: int, e: nat)
    requires
        0 <= v,
        1 <= e,
    ensures
        0 <= m31_pow_spec(v, e) < M31_MODULUS as int,
{
    lemma_m31_pow_nonneg(v, (e - 1) as nat);
    assert(0 <= v * m31_pow_spec(v, (e - 1) as nat)) by (nonlinear_arith)
        requires
            0 <= v,
            0 <= m31_pow_spec(v, (e - 1) as nat),
    ;
    lemma_mod_bound(v * m31_pow_spec(v, (e - 1) as nat), M31_MODULUS as int);
}

/// A reduced power of a power is the power at the product of the exponents.
pub proof fn lemma_m31_pow_pow(v: int, e1: nat, e2: nat)
    requires
        0 <= v < M31_MODULUS as int,
        1 <= e1,
    ensures
        m31_pow_spec(m31_pow_spec(v, e1), e2) == m31_pow_spec(v, e1 * e2),
    decreases e2,
{
    let m = M31_MODULUS as int;
    if e2 == 0 {
        assert(e1 * e2 == 0);
    } else {
        lemma_m31_pow_pow(v, e1, (e2 - 1) as nat);
        lemma_m31_pow_bound(v, e1);
        lemma_m31_pow_nonneg(v, e1 * (e2 - 1) as nat);
        assert(e1 * e2 == e1 + e1 * ((e2 - 1) as nat)) by (nonlinear_arith)
            requires
                1 <= e2,
        ;
        lemma_m31_pow_add(v, e1, e1 * (e2 - 1) as nat);
        lemma_m31_pow_bound(v, e1);
        lemma_small_mod(m31_pow_spec(v, e1) as nat, m as nat);
        assert(m31_pow_spec(v, e1) % m == m31_pow_spec(v, e1));
        lemma_mul_mod_noop_general(
            m31_pow_spec(v, e1),
            m31_pow_spec(v, e1 * (e2 - 1) as nat),
            m,
        );
    }
}

/// A reduced element equals its own first power.
pub proof fn lemma_m31_pow_one(v: int)
    requires
        0 <= v < M31_MODULUS as int,
    ensures
        m31_pow_spec(v, 1) == v,
{
    assert(v * m31_pow_spec(v, 0) == v);
    lemma_small_mod(v as nat, M31_MODULUS as nat);
}

/// Computes `v^(2^n)` by `n` squarings.
fn sqn(v: u32, n: u32) -> (r: u32)
    requires
        is_m31(v),
        n <= 31,
    ensures
        r == m31_pow_spec(v as int, pow2(n as nat)),
        is_m31(r),
{
    let mut cur = v;
    let mut i: u32 = 0;
    proof {
        lemma_m31_pow_one(v as int);
        assert(pow2(0) == 1) by {
            lemma2_to64();
        }
    }
    while i < n
        invariant
            i <= n,
            is_m31(v),
            is_m31(cur),
            cur == m31_pow_spec(v as int, pow2(i as nat)),
        decreases n - i,
    {
        let next = mul_m31(cur, cur);
        proof {
            lemma_m31_pow_add(v as int, pow2(i as nat), pow2(i as nat));
            lemma_pow2_adds(i as nat, 1);
            assert(pow2(1) == 2) by {
                lemma2_to64();
            }
            assert(pow2((i + 1) as nat) == pow2(i as nat) * 2);
        }
        cur = next;
        i = i + 1;
    }
    cur
}

/// The inverse chain of the M31 field: computes `v^(2^31 - 3)`, which for a
/// nonzero field element is its multiplicative inverse, by a fixed addition
/// chain of squarings and eleven multiplications.  The product of the
/// operand and the result is the operand raised to one less than the
/// modulus; that this is one for every nonzero operand is the field's
/// little-theorem fact, which the recording-level inverses check at run
/// time instead of assuming.
pub fn pow2147483645(v: u32) -> (r: u32)
    requires
        is_m31(v),
    ensures
        r == m31_pow_spec(v as int, (M31_MODULUS - 2) as nat),
        (v as int * r as int) % (M31_MODULUS as int) == m31_pow_spec(
            v as int,
            (M31_MODULUS - 1) as nat,
        ),
        is_m31(r),
{
    let vi = Ghost(v as int);
    proof {
        lemma_m31_pow_one(v as int);
        assert(m31_pow_spec(v as int, (M31_MODULUS - 1) as nat) == (v as int * m31_pow_spec(
            v as int,
            (M31_MODULUS - 2) as nat,
        )) % (M31_MODULUS as int));
    }
    // t0 = v^5
    let t0 = mul_m31(sqn(v, 2), v);
    proof {
        assert(pow2(2) == 4) by {
            lemma2_to64();
        }
        lemma_m31_pow_add(vi@, 4, 1);
    }
    assert(t0 == m31_pow_spec(vi@, 5));
    // t1 = v^15
    let t1 = mul_m31(sqn(t0, 1), t0);
    proof {
        assert(pow2(1) == 2) by {
            lemma2_to64();
        }
        lemma_m31_pow_pow(vi@, 5, 2);
        lemma_m31_pow_add(vi@, 10, 5);
    }
    assert(t1 == m31_pow_spec(vi@, 15));
    // t2 = v^125
    let t2 = mul_m31(sqn(t1, 3), t0);
    proof {
        assert(pow2(3) == 8) by {
            lemma2_to64();
        }
        lemma_m31_pow_pow(vi@, 15, 8);
        lemma_m31_pow_add(vi@, 120, 5);
    }
    assert(t2 == m31_pow_spec(vi@, 125));
    // t3 = v^255
    let t3 = mul_m31(sqn(t2, 1), t0);
    proof {
        lemma_m31_pow_pow(vi@, 125, 2);
        lemma_m31_pow_add(vi@, 250, 5);
    }
    assert(t3 == m31_pow_spec(vi@, 255));
    // t4 = v^65535
    let t4 = mul_m31(sqn(t3, 8), t3);
    proof {
        assert(pow2(8) == 256) by {
            lemma2_to64();
        }
        lemma_m31_pow_pow(vi@, 255, 256);
        lemma_m31_pow_add(vi@, 65280, 255);
    }
    assert(t4 == m31_pow_spec(vi@, 65535));
    // t5 = v^16777215
    let t5 = mul_m31(sqn(t4, 8), t3);
    proof {
        lemma_m31_pow_pow(vi@, 65535, 256);
        lemma_m31_pow_add(vi@, 16776960, 255);
    }
    assert(t5 == m31_pow_spec(vi@, 16777215));
    // r = v^(2^31 - 3)
    let r = mul_m31(sqn(t5, 7), t2);
    proof {
        assert(pow2(7) == 128) by {
            lemma2_to64();
        }
        lemma_m31_pow_pow(vi@, 16777215, 128);
        lemma_m31_pow_add(vi@, 2147483520, 125);
    }
    assert(r == m31_pow_spec(vi@, 2147483645));
    r
}

} // verus!

verus! {

/// Reduced modular addition over the integers.
pub open spec fn madd(a: int, b: int) -> int {
    (a + b) % (M31_MODULUS as int)
}

/// Reduced modular subtraction over the integers.
pub open spec fn msub(a: int, b: int) -> int {
    (M31_MODULUS as int + a - b) % (M31_MODULUS as int)
}

/// Reduced modular multiplication over the integers.
pub open spec fn mmul(a: int, b: int) -> int {
    (a * b) % (M31_MODULUS as int)
}

/// A CM31 element is a pair (re, im) of reduced M31 elements.
pub open spec fn is_cm31(v: (u32, u32)) -> bool {
    is_m31(v.0) && is_m31(v.1)
}

/// A QM31 element is a pair of CM31 elements.
pub open spec fn is_qm31(v: ((u32, u32), (u32, u32))) -> bool {
    is_cm31(v.0) && is_cm31(v.1)
}

/// Componentwise CM31 addition, over the integers.
pub open spec fn cm31_add_s(a: (int, int), b: (int, int)) -> (int, int) {
    (madd(a.0, b.0), madd(a.1, b.1))
}

/// Componentwise CM31 subtraction, over the integers.
pub open spec fn cm31_sub_s(a: (int, int), b: (int, int)) -> (int, int) {
    (msub(a.0, b.0), msub(a.1, b.1))
}

/// CM31 multiplication: (a0 + a1 i)(b0 + b1 i) with i^2 = -1.
pub open spec fn cm31_mul_s(a: (int, int), b: (int, int)) -> (int, int) {
    (msub(mmul(a.0, b.0), mmul(a.1, b.1)), madd(mmul(a.0, b.1), mmul(a.1, b.0)))
}

/// The CM31 inverse: (a - bi) / (a^2 + b^2), with the M31 inverse taken by
/// the fixed exponentiation chain.
pub open spec fn cm31_inverse_s(v: (int, int)) -> (int, int) {
    let denom = madd(mmul(v.0, v.0), mmul(v.1, v.1));
    let denom_inverse = m31_pow_spec(denom, (M31_MODULUS - 2) as nat);
    (mmul(v.0, denom_inverse), msub(0, mmul(v.1, denom_inverse)))
}

/// QM31 multiplication: (a0 + a1 u)(b0 + b1 u) with u^2 = 2 + i.
pub open spec fn qm31_mul_s(a: ((int, int), (int, int)), b: ((int, int), (int, int))) -> (
    (int, int),
    (int, int),
) {
    (
        cm31_add_s(cm31_mul_s(a.0, b.0), cm31_mul_s(cm31_mul_s(a.1, b.1), (2, 1))),
        cm31_add_s(cm31_mul_s(a.0, b.1), cm31_mul_s(a.1, b.0)),
    )
}

/// The QM31 inverse: (a - bu) / (a^2 - (2+i) b^2).
pub open spec fn qm31_inverse_s(v: ((int, int), (int, int))) -> ((int, int), (int, int)) {
    let denom = cm31_sub_s(cm31_mul_s(v.0, v.0), cm31_mul_s(cm31_mul_s(v.1, v.1), (2, 1)));
    let denom_inverse = cm31_inverse_s(denom);
    (cm31_mul_s(v.0, denom_inverse), cm31_sub_s((0, 0), cm31_mul_s(v.1, denom_inverse)))
}

/// The integer pair a CM31 value stands for.
pub open spec fn cm31_int(v: (u32, u32)) -> (int, int) {
    (v.0 as int, v.1 as int)
}

/// The integer pairs a QM31 value stands for.
pub open spec fn qm31_int(v: ((u32, u32), (u32, u32))) -> ((int, int), (int, int)) {
    (cm31_int(v.0), cm31_int(v.1))
}

/// Componentwise CM31 addition.
pub fn add_cm31(a: (u32, u32), b: (u32, u32)) -> (r: (u32, u32))
    requires
        is_cm31(a),
        is_cm31(b),
    ensures
        is_cm31(r),
        cm31_int(r) == cm31_add_s(cm31_int(a), cm31_int(b)),
{
    let re = add_m31(a.0, b.0);
    let im = add_m31(a.1, b.1);
    (re, im)
}

/// Componentwise CM31 subtraction.
pub fn sub_cm31(a: (u32, u32), b: (u32, u32)) -> (r: (u32, u32))
    requires
        is_cm31(a),
        is_cm31(b),
    ensures
        is_cm31(r),
        cm31_int(r) == cm31_sub_s(cm31_int(a), cm31_int(b)),
{
    let re = sub_m31(a.0, b.0);
    let im = sub_m31(a.1, b.1);
    (re, im)
}

/// CM31 multiplication.
pub fn mul_cm31(a: (u32, u32), b: (u32, u32)) -> (r: (u32, u32))
    requires
        is_cm31(a),
        is_cm31(b),
    ensures
        is_cm31(r),
        cm31_int(r) == cm31_mul_s(cm31_int(a), cm31_int(b)),
{
    let re = sub_m31(mul_m31(a.0, b.0), mul_m31(a.1, b.1));
    let im = add_m31(mul_m31(a.0, b.1), mul_m31(a.1, b.0));
    (re, im)
}

/// QM31 multiplication.
pub fn mul_qm31(a: ((u32, u32), (u32, u32)), b: ((u32, u32), (u32, u32))) -> (r: (
    (u32, u32),
    (u32, u32),
))
    requires
        is_qm31(a),
        is_qm31(b),
    ensures
        is_qm31(r),
        qm31_int(r) == qm31_mul_s(qm31_int(a), qm31_int(b)),
{
    let real_product = mul_cm31(a.0, b.0);
    let imag_product_shifted = mul_cm31(mul_cm31(a.1, b.1), (2, 1));
    let first = add_cm31(real_product, imag_product_shifted);

    let cross_term1 = mul_cm31(a.0, b.1);
    let cross_term2 = mul_cm31(a.1, b.0);
    let second = add_cm31(cross_term1, cross_term2);

    (first, second)
}


/// The inverse formula's lanes multiply the operand back to its squared
/// norm times the chain result: the imaginary part always cancels.
pub proof fn lemma_cm31_inverse_product(a: int, b: int, d: int)
    requires
        0 <= a < M31_MODULUS,
        0 <= b < M31_MODULUS,
        0 <= d < M31_MODULUS,
    ensures
        cm31_mul_s((a, b), (mmul(a, d), msub(0, mmul(b, d)))) == (
            mmul(madd(mmul(a, a), mmul(b, b)), d),
            0int,
        ),
{
    let m = M31_MODULUS as int;
    let p = mmul(a, d);
    let t = (b * d) % m;
    let q = msub(0, mmul(b, d));
    // q is the reduced form of -(b*d)
    vstd::arithmetic::div_mod::lemma_mod_multiples_vanish(1, -t, m);
    assert(m * 1 + (-t) == m + 0 - t);
    vstd::arithmetic::div_mod::lemma_sub_mod_noop(0, b * d, m);
    assert(q == (-(b * d)) % m);
    // the four lane products over the unreduced integers
    vstd::arithmetic::div_mod::lemma_mul_mod_noop_general(a, a * d, m);
    assert(mmul(a, p) == (a * (a * d)) % m);
    vstd::arithmetic::div_mod::lemma_mul_mod_noop_general(b, -(b * d), m);
    assert(mmul(b, q) == (b * (-(b * d))) % m);
    vstd::arithmetic::div_mod::lemma_mul_mod_noop_general(a, -(b * d), m);
    assert(mmul(a, q) == (a * (-(b * d))) % m);
    vstd::arithmetic::div_mod::lemma_mul_mod_noop_general(b, a * d, m);
    assert(mmul(b, p) == (b * (a * d)) % m);
    // the real part is the squared norm times d
    vstd::arithmetic::div_mod::lemma_mod_multiples_vanish(1, mmul(a, p) - mmul(b, q), m);
    assert(m * 1 + (mmul(a, p) - mmul(b, q)) == m + mmul(a, p) - mmul(b, q));
    vstd::arithmetic::div_mod::lemma_sub_mod_noop(a * (a * d), b * (-(b * d)), m);
    assert(a * (a * d) - b * (-(b * d)) == (a * a + b * b) * d) by (nonlinear_arith);
    vstd::arithmetic::div_mod::lemma_add_mod_noop(a * a, b * b, m);
    assert(madd(mmul(a, a), mmul(b, b)) == (a * a + b * b) % m);
    vstd::arithmetic::div_mod::lemma_mul_mod_noop_general(a * a + b * b, d, m);
    assert(cm31_mul_s((a, b), (p, q)).0 == mmul(madd(mmul(a, a), mmul(b, b)), d));
    // the imaginary part cancels
    vstd::arithmetic::div_mod::lemma_add_mod_noop(a * (-(b * d)), b * (a * d), m);
    assert(a * (-(b * d)) + b * (a * d) == 0) by (nonlinear_arith);
    assert(0int % m == 0);
    assert(cm31_mul_s((a, b), (p, q)).1 == 0);
}

/// The CM31 inverse, computed through the M31 exponentiation chain.
pub fn inverse_cm31(v: (u32, u32)) -> (r: (u32, u32))
    requires
        is_cm31(v),
    ensures
        is_cm31(r),
        cm31_int(r) == cm31_inverse_s(cm31_int(v)),
        cm31_mul_s(cm31_int(v), cm31_int(r)) == (
            m31_pow_spec(
                madd(mmul(v.0 as int, v.0 as int), mmul(v.1 as int, v.1 as int)),
                (M31_MODULUS - 1) as nat,
            ),
            0int,
        ),
{
    let real_squared = mul_m31(v.0, v.0);
    let imag_squared = mul_m31(v.1, v.1);

    let denom = add_m31(real_squared, imag_squared);
    let denom_inverse = pow2147483645(denom);

    let re = mul_m31(v.0, denom_inverse);
    let im = sub_m31(0, mul_m31(v.1, denom_inverse));
    proof {
        lemma_cm31_inverse_product(v.0 as int, v.1 as int, denom_inverse as int);
    }
    (re, im)
}

/// The QM31 inverse, computed through the CM31 inverse.
pub fn inverse_qm31(v: ((u32, u32), (u32, u32))) -> (r: ((u32, u32), (u32, u32)))
    requires
        is_qm31(v),
    ensures
        is_qm31(r),
        qm31_int(r) == qm31_inverse_s(qm31_int(v)),
{
    let real_squared = mul_cm31(v.0, v.0);
    let imag_squared = mul_cm31(v.1, v.1);
    let imag_squared_times_2_plus_i = mul_cm31(imag_squared, (2, 1));

    let denom = sub_cm31(real_squared, imag_squared_times_2_plus_i);
    let denom_inverse = inverse_cm31(denom);

    let first = mul_cm31(v.0, denom_inverse);
    let second = sub_cm31((0, 0), mul_cm31(v.1, denom_inverse));

    (first, second)
}

/// The value a sequence of base-256 limbs stands for, least significant
/// limb first, read from position `i` on.
pub open spec fn limbs_val_from(s: Seq<int>, i: int) -> int
    decreases s.len() - i when 0 <= i <= s.len()
{
    if i >= s.len() {
        0
    } else {
        s[i] + 256 * limbs_val_from(s, i + 1)
    }
}

/// The value a sequence of base-256 limbs stands for.
pub open spec fn limbs_val(s: Seq<int>) -> int {
    limbs_val_from(s, 0)
}

/// The limbs of a 32-bit value, least significant first.
pub open spec fn limbs_of(v: u32) -> Seq<int> {
    seq![
        (v as int) % 256,
        ((v as int) / 256) % 256,
        ((v as int) / 65536) % 256,
        ((v as int) / 16777216) % 256,
    ]
}

/// The sequence of integers a slice of 32-bit limbs stands for.
pub open spec fn limb_ints(s: Seq<u32>) -> Seq<int> {
    s.map_values(|x: u32| x as int)
}

/// Splits a value into four base-256 limbs, least significant first.
pub fn convert_m31_to_limbs(v: u32) -> (r: [u32; 4])
    ensures
        limb_ints(r@) =~= limbs_of(v),
        limbs_val(limbs_of(v)) == v,
        forall|i: int| 0 <= i < 4 ==> #[trigger] r@[i] < 256,
{
    let r = [v & 255, (v >> 8u32) & 255, (v >> 16u32) & 255, (v >> 24u32) & 255];
    proof {
        assert((v & 255) == (v as int) % 256 && ((v >> 8u32) & 255) == ((v as int) / 256) % 256
            && ((v >> 16u32) & 255) == ((v as int) / 65536) % 256 && ((v >> 24u32) & 255) == ((
        v as int) / 16777216) % 256) by (bit_vector);
        assert((v & 255) < 256 && ((v >> 8u32) & 255) < 256 && ((v >> 16u32) & 255) < 256 && ((v
            >> 24u32) & 255) < 256) by (bit_vector);
        lemma_limbs_of_val(v);
    }
    r
}

/// The four limbs of a 32-bit value recompose to the value itself.
pub proof fn lemma_limbs_of_val(v: u32)
    ensures
        limbs_val(limbs_of(v)) == v,
{
    let s = limbs_of(v);
    reveal_with_fuel(limbs_val_from, 5);
    let x = v as int;
    assert(x % 256 + 256 * ((x / 256) % 256 + 256 * ((x / 65536) % 256 + 256 * ((x / 16777216)
        % 256))) == x) by (nonlinear_arith)
        requires
            0 <= x < 0x1_0000_0000,
    ;
}

/// Recomposes four base-256 limbs into the value they stand for.
pub fn convert_m31_from_limbs(v: &[u32]) -> (r: u32)
    requires
        v@.len() == 4,
        forall|i: int| 0 <= i < 4 ==> #[trigger] v@[i] < 256,
    ensures
        r == limbs_val(limb_ints(v@)),
{
    proof {
        reveal_with_fuel(limbs_val_from, 5);
        assert(forall|x: u32| x < 256 ==> (x << 8u32) == x * 256 && (x << 16u32) == x * 65536 && (
        x << 24u32) == x * 16777216) by (bit_vector);
    }
    v[0] + (v[1] << 8u32) + (v[2] << 16u32) + (v[3] << 24u32)
}

/// Splits both halves of a CM31 value into limbs: real limbs first, then
/// imaginary limbs.
pub fn convert_cm31_to_limbs(cm31: (u32, u32)) -> (r: [u32; 8])
    ensures
        limb_ints(r@.subrange(0, 4)) =~= limbs_of(cm31.0),
        limb_ints(r@.subrange(4, 8)) =~= limbs_of(cm31.1),
        forall|i: int| 0 <= i < 8 ==> #[trigger] r@[i] < 256,
{
    let real_limbs = convert_m31_to_limbs(cm31.0);
    let imag_limbs = convert_m31_to_limbs(cm31.1);

    let r = [
        real_limbs[0],
        real_limbs[1],
        real_limbs[2],
        real_limbs[3],
        imag_limbs[0],
        imag_limbs[1],
        imag_limbs[2],
        imag_limbs[3],
    ];
    proof {
        assert(limb_ints(r@.subrange(0, 4)) =~= limb_ints(real_limbs@));
        assert(limb_ints(r@.subrange(4, 8)) =~= limb_ints(imag_limbs@));
    }
    r
}

/// Recomposes a pair of limb quadruples into a CM31 value.
pub fn convert_cm31_from_limbs(v: &([u32; 4], [u32; 4])) -> (r: (u32, u32))
    requires
        forall|i: int| 0 <= i < 4 ==> #[trigger] v.0@[i] < 256,
        forall|i: int| 0 <= i < 4 ==> #[trigger] v.1@[i] < 256,
    ensures
        r.0 == limbs_val(limb_ints(v.0@)),
        r.1 == limbs_val(limb_ints(v.1@)),
{
    let re = convert_m31_from_limbs(v.0.as_slice());
    let im = convert_m31_from_limbs(v.1.as_slice());
    (re, im)
}

} // verus!
use crate::script::{
    emit_op, emit_push_int, push_int_bytes, OP_1SUB, OP_ADD, OP_DEPTH, OP_DUP,
    OP_GREATERTHANOREQUAL, OP_LESSTHAN, OP_ROLL, OP_VERIFY,
};

verus! {

/// The snippet that verifies the topmost number is a byte limb: at least
/// zero and below 256.
pub fn check_limb_format() -> (r: Vec<u8>)
    ensures
        r@ == seq![OP_DUP] + push_int_bytes(0) + seq![OP_GREATERTHANOREQUAL, OP_VERIFY, OP_DUP]
            + push_int_bytes(256) + seq![OP_LESSTHAN, OP_VERIFY],
{
    let mut s: Vec<u8> = Vec::new();
    emit_op(&mut s, OP_DUP);
    emit_push_int(&mut s, 0);
    emit_op(&mut s, OP_GREATERTHANOREQUAL);
    emit_op(&mut s, OP_VERIFY);
    emit_op(&mut s, OP_DUP);
    emit_push_int(&mut s, 256);
    emit_op(&mut s, OP_LESSTHAN);
    emit_op(&mut s, OP_VERIFY);
    proof {
        assert(s@ =~= seq![OP_DUP] + push_int_bytes(0) + seq![
            OP_GREATERTHANOREQUAL,
            OP_VERIFY,
            OP_DUP,
        ] + push_int_bytes(256) + seq![OP_LESSTHAN, OP_VERIFY]);
    }
    s
}

/// The snippet that multiplies the topmost number by 256 through eight
/// doublings.
#[allow(non_snake_case)]
pub fn OP_256MUL() -> (r: Vec<u8>)
    ensures
        r@ == seq![
            OP_DUP, OP_ADD, OP_DUP, OP_ADD, OP_DUP, OP_ADD, OP_DUP, OP_ADD, OP_DUP, OP_ADD,
            OP_DUP, OP_ADD, OP_DUP, OP_ADD, OP_DUP, OP_ADD,
        ],
{
    let mut s: Vec<u8> = Vec::new();
    let mut i: u32 = 0;
    while i < 8
        invariant
            0 <= i <= 8,
            s@ == Seq::new((2 * i) as nat, |k: int| if k % 2 == 0 { OP_DUP } else { OP_ADD }),
        decreases 8 - i,
    {
        emit_op(&mut s, OP_DUP);
        emit_op(&mut s, OP_ADD);
        proof {
            assert(s@ =~= Seq::new((2 * (i + 1)) as nat, |k: int| if k % 2 == 0 { OP_DUP } else { OP_ADD }));
        }
        i = i + 1;
    }
    proof {
        assert(s@ =~= seq![
            OP_DUP, OP_ADD, OP_DUP, OP_ADD, OP_DUP, OP_ADD, OP_DUP, OP_ADD, OP_DUP, OP_ADD,
            OP_DUP, OP_ADD, OP_DUP, OP_ADD, OP_DUP, OP_ADD,
        ]);
    }
    s
}

/// The snippet that loads the next hint: it rolls the bottommost stack
/// element, the front of the hint region, to the top.
#[allow(non_snake_case)]
pub fn OP_HINT() -> (r: Vec<u8>)
    ensures
        r@ == seq![OP_DEPTH, OP_1SUB, OP_ROLL],
{
    let mut s: Vec<u8> = Vec::new();
    emit_op(&mut s, OP_DEPTH);
    emit_op(&mut s, OP_1SUB);
    emit_op(&mut s, OP_ROLL);
    proof {
        assert(s@ =~= seq![OP_DEPTH, OP_1SUB, OP_ROLL]);
    }
    s
}

} // verus!
