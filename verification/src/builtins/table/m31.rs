use vstd::prelude::*;
use crate::builtins::table::utils::{
    add_m31, check_limb_format, convert_m31_from_limbs, convert_m31_to_limbs, is_m31, limb_ints,
    limbs_val, limbs_val_from, M31_MODULUS, OP_256MUL,
};
use crate::errors::Error;
use crate::script::{
    emit_all, emit_op, emit_push_int, OP_2DUP, OP_ABS, OP_ADD, OP_DROP, OP_DUP,
    OP_GREATERTHANOREQUAL, OP_IF, OP_ELSE, OP_ENDIF, OP_LESSTHAN, OP_PICK, OP_ROT, OP_SUB,
    OP_SWAP, OP_TOALTSTACK, OP_FROMALTSTACK,
};

verus! {

/// The sequence of integers a slice of 64-bit convolution limbs stands
/// for.
pub open spec fn limb_ints64(s: Seq<u64>) -> Seq<int> {
    s.map_values(|x: u64| x as int)
}

/// The closed form of a four-limb value.
proof fn lemma_limbs4(s: Seq<int>)
    requires
        s.len() == 4,
    ensures
        limbs_val(s) == s[0] + 256 * (s[1] + 256 * (s[2] + 256 * s[3])),
{
    reveal_with_fuel(limbs_val_from, 6);
}

/// The closed form of a seven-limb value.
proof fn lemma_limbs7(s: Seq<int>)
    requires
        s.len() == 7,
    ensures
        limbs_val(s) == s[0] + 256 * (s[1] + 256 * (s[2] + 256 * (s[3] + 256 * (s[4] + 256 * (
        s[5] + 256 * s[6]))))),
{
    reveal_with_fuel(limbs_val_from, 9);
}

/// Native limb arithmetic on the four-limb form of an M31 element.
pub struct M31Limbs;

impl M31Limbs {
    /// The plain limb-wise sum: no carry, no reduction; each output limb
    /// may exceed one byte.
    pub fn add_limbs(a: &[u32], b: &[u32]) -> (r: Vec<u32>)
        requires
            a@.len() == 4,
            b@.len() == 4,
            forall|i: int| 0 <= i < 4 ==> #[trigger] a@[i] < 256,
            forall|i: int| 0 <= i < 4 ==> #[trigger] b@[i] < 256,
        ensures
            r@.len() == 4,
            forall|i: int| 0 <= i < 4 ==> #[trigger] r@[i] == a@[i] + b@[i],
            forall|i: int| 0 <= i < 4 ==> #[trigger] r@[i] < 512,
    {
        let mut r: Vec<u32> = Vec::new();
        r.push(a[0] + b[0]);
        r.push(a[1] + b[1]);
        r.push(a[2] + b[2]);
        r.push(a[3] + b[3]);
        r
    }

    /// The reduced limb sum: the two operands are recomposed, added in
    /// the field, and split back into four byte-sized limbs.
    pub fn add_limbs_with_reduction(a: &[u32], b: &[u32]) -> (r: Vec<u32>)
        requires
            a@.len() == 4,
            b@.len() == 4,
            forall|i: int| 0 <= i < 4 ==> #[trigger] a@[i] < 256,
            forall|i: int| 0 <= i < 4 ==> #[trigger] b@[i] < 256,
            limbs_val(limb_ints(a@)) < M31_MODULUS,
            limbs_val(limb_ints(b@)) < M31_MODULUS,
        ensures
            r@.len() == 4,
            forall|i: int| 0 <= i < 4 ==> #[trigger] r@[i] < 256,
            limbs_val(limb_ints(r@)) == (limbs_val(limb_ints(a@)) + limbs_val(limb_ints(b@))) % (
            M31_MODULUS as int),
    {
        let av = convert_m31_from_limbs(a);
        let bv = convert_m31_from_limbs(b);
        let sum = add_m31(av, bv);
        let limbs = convert_m31_to_limbs(sum);
        proof {
            crate::builtins::table::utils::lemma_limbs_of_val(sum);
        }
        let mut r: Vec<u32> = Vec::new();
        r.push(limbs[0]);
        r.push(limbs[1]);
        r.push(limbs[2]);
        r.push(limbs[3]);
        proof {
            assert(limb_ints(r@) =~= crate::builtins::table::utils::limbs_of(sum));
        }
        r
    }
}

/// The native side of the table-backed limb multiplication.
pub struct M31Mult;

impl M31Mult {
    /// The convolution limbs of the product of two four-limb operands:
    /// seven base-256 coefficients whose weighted sum is the product.
    pub fn compute_c_limbs_from_limbs(a: &[u32], b: &[u32]) -> (r: Result<Vec<u64>, Error>)
        ensures
            r is Ok <==> a@.len() == 4 && b@.len() == 4 && (forall|i: int|
                0 <= i < 4 ==> #[trigger] a@[i] < 512) && (forall|i: int|
                0 <= i < 4 ==> #[trigger] b@[i] < 512),
            r matches Ok(c) ==> {
                &&& c@.len() == 7
                &&& (forall|k: int| 0 <= k < 7 ==> #[trigger] c@[k] < 0x100000)
                &&& limbs_val(limb_ints64(c@)) == limbs_val(limb_ints(a@)) * limbs_val(
                    limb_ints(b@),
                )
            },
    {
        if a.len() != 4 || b.len() != 4 {
            return Err(Error::TypeMismatch);
        }
        let mut i: usize = 0;
        while i < 4
            invariant
                0 <= i <= 4,
                a@.len() == 4,
                b@.len() == 4,
                forall|d: int| 0 <= d < i ==> #[trigger] a@[d] < 512,
                forall|d: int| 0 <= d < i ==> #[trigger] b@[d] < 512,
            decreases 4 - i,
        {
            if a[i] >= 512 || b[i] >= 512 {
                return Err(Error::Overflow);
            }
            i = i + 1;
        }
        proof {
            assert(forall|x: int, y: int|
                0 <= x < 512 && 0 <= y < 512 ==> 0 <= #[trigger] (x * y) < 0x40000)
                by (nonlinear_arith);
        }
        let a0 = a[0] as u64;
        let a1 = a[1] as u64;
        let a2 = a[2] as u64;
        let a3 = a[3] as u64;
        let b0 = b[0] as u64;
        let b1 = b[1] as u64;
        let b2 = b[2] as u64;
        let b3 = b[3] as u64;
        let mut c: Vec<u64> = Vec::new();
        c.push(a0 * b0);
        c.push(a0 * b1 + a1 * b0);
        c.push(a0 * b2 + a1 * b1 + a2 * b0);
        c.push(a0 * b3 + a1 * b2 + a2 * b1 + a3 * b0);
        c.push(a1 * b3 + a2 * b2 + a3 * b1);
        c.push(a2 * b3 + a3 * b2);
        c.push(a3 * b3);
        proof {
            lemma_c_limbs_value(
                a0 as int,
                a1 as int,
                a2 as int,
                a3 as int,
                b0 as int,
                b1 as int,
                b2 as int,
                b3 as int,
            );
            assert(limb_ints(a@) =~= seq![a0 as int, a1 as int, a2 as int, a3 as int]);
            assert(limb_ints(b@) =~= seq![b0 as int, b1 as int, b2 as int, b3 as int]);
            assert(limb_ints64(c@) =~= seq![
                (a0 * b0) as int,
                (a0 * b1 + a1 * b0) as int,
                (a0 * b2 + a1 * b1 + a2 * b0) as int,
                (a0 * b3 + a1 * b2 + a2 * b1 + a3 * b0) as int,
                (a1 * b3 + a2 * b2 + a3 * b1) as int,
                (a2 * b3 + a3 * b2) as int,
                (a3 * b3) as int,
            ]);
        }
        Ok(c)
    }

    /// The quotient of the recomposed convolution value by the modulus.
    pub fn compute_q(c: &[u64]) -> (r: Result<u32, Error>)
        ensures
            r is Ok <==> c@.len() == 7 && (forall|k: int|
                0 <= k < 7 ==> #[trigger] c@[k] < 0x100000) && limbs_val(limb_ints64(c@)) / (
            M31_MODULUS as int) <= u32::MAX,
            r matches Ok(q) ==> q == limbs_val(limb_ints64(c@)) / (M31_MODULUS as int),
    {
        if c.len() != 7 {
            return Err(Error::TypeMismatch);
        }
        let mut i: usize = 0;
        while i < 7
            invariant
                0 <= i <= 7,
                c@.len() == 7,
                forall|d: int| 0 <= d < i ==> #[trigger] c@[d] < 0x100000,
            decreases 7 - i,
        {
            if c[i] >= 0x100000 {
                return Err(Error::Overflow);
            }
            i = i + 1;
        }
        let mut v: u128 = c[6] as u128;
        v = v * 256 + (c[5] as u128);
        v = v * 256 + (c[4] as u128);
        v = v * 256 + (c[3] as u128);
        v = v * 256 + (c[2] as u128);
        v = v * 256 + (c[1] as u128);
        v = v * 256 + (c[0] as u128);
        proof {
            assert(limb_ints64(c@) =~= seq![
                c@[0] as int,
                c@[1] as int,
                c@[2] as int,
                c@[3] as int,
                c@[4] as int,
                c@[5] as int,
                c@[6] as int,
            ]);
            lemma_limbs7(limb_ints64(c@));
            assert(v == limbs_val(limb_ints64(c@)));
        }
        let q = v / (M31_MODULUS as u128);
        if q > (u32::MAX as u128) {
            return Err(Error::Overflow);
        }
        Ok(q as u32)
    }
}

/// The convolution limbs recompose to the product of the operands.
#[verifier::rlimit(60)]
proof fn lemma_c_limbs_value(
    a0: int,
    a1: int,
    a2: int,
    a3: int,
    b0: int,
    b1: int,
    b2: int,
    b3: int,
)
    ensures
        limbs_val(seq![a0, a1, a2, a3]) * limbs_val(seq![b0, b1, b2, b3]) == limbs_val(
            seq![
                a0 * b0,
                a0 * b1 + a1 * b0,
                a0 * b2 + a1 * b1 + a2 * b0,
                a0 * b3 + a1 * b2 + a2 * b1 + a3 * b0,
                a1 * b3 + a2 * b2 + a3 * b1,
                a2 * b3 + a3 * b2,
                a3 * b3,
            ],
        ),
{
    let va = a0 + 256 * (a1 + 256 * (a2 + 256 * a3));
    let vb = b0 + 256 * (b1 + 256 * (b2 + 256 * b3));
    lemma_limbs4(seq![a0, a1, a2, a3]);
    lemma_limbs4(seq![b0, b1, b2, b3]);
    lemma_limbs7(
        seq![
            a0 * b0,
            a0 * b1 + a1 * b0,
            a0 * b2 + a1 * b1 + a2 * b0,
            a0 * b3 + a1 * b2 + a2 * b1 + a3 * b0,
            a1 * b3 + a2 * b2 + a3 * b1,
            a2 * b3 + a3 * b2,
            a3 * b3,
        ],
    );
    assert(va * vb == a0 * vb + 256 * (a1 * vb) + 65536 * (a2 * vb) + 16777216 * (a3 * vb))
        by (nonlinear_arith)
        requires
            va == a0 + 256 * (a1 + 256 * (a2 + 256 * a3)),
    ;
    assert(a0 * vb == a0 * b0 + 256 * (a0 * b1) + 65536 * (a0 * b2) + 16777216 * (a0 * b3))
        by (nonlinear_arith)
        requires
            vb == b0 + 256 * (b1 + 256 * (b2 + 256 * b3)),
    ;
    assert(a1 * vb == a1 * b0 + 256 * (a1 * b1) + 65536 * (a1 * b2) + 16777216 * (a1 * b3))
        by (nonlinear_arith)
        requires
            vb == b0 + 256 * (b1 + 256 * (b2 + 256 * b3)),
    ;
    assert(a2 * vb == a2 * b0 + 256 * (a2 * b1) + 65536 * (a2 * b2) + 16777216 * (a2 * b3))
        by (nonlinear_arith)
        requires
            vb == b0 + 256 * (b1 + 256 * (b2 + 256 * b3)),
    ;
    assert(a3 * vb == a3 * b0 + 256 * (a3 * b1) + 65536 * (a3 * b2) + 16777216 * (a3 * b3))
        by (nonlinear_arith)
        requires
            vb == b0 + 256 * (b1 + 256 * (b2 + 256 * b3)),
    ;
}

/// The bytes of the byte-limb range check.
pub open spec fn check_limb_format_bytes() -> Seq<u8> {
    seq![OP_DUP] + crate::script::push_int_bytes(0) + seq![
        OP_GREATERTHANOREQUAL,
        crate::script::OP_VERIFY,
        OP_DUP,
    ] + crate::script::push_int_bytes(256) + seq![OP_LESSTHAN, crate::script::OP_VERIFY]
}

/// The bytes of the eightfold doubling.
pub open spec fn op_256mul_bytes() -> Seq<u8> {
    seq![
        OP_DUP, OP_ADD, OP_DUP, OP_ADD, OP_DUP, OP_ADD, OP_DUP, OP_ADD, OP_DUP, OP_ADD, OP_DUP,
        OP_ADD, OP_DUP, OP_ADD, OP_DUP, OP_ADD,
    ]
}

/// The bytes of the reduced field addition.
pub open spec fn m31_add_bytes() -> Seq<u8> {
    crate::script::push_int_bytes(M31_MODULUS as int) + seq![OP_SWAP, OP_SUB, OP_SUB, OP_DUP]
        + crate::script::push_int_bytes(0) + seq![OP_LESSTHAN, OP_IF]
        + crate::script::push_int_bytes(M31_MODULUS as int) + seq![OP_ADD, OP_ENDIF]
}

/// The bytes of the reduced field subtraction.
pub open spec fn m31_sub_bytes() -> Seq<u8> {
    seq![OP_SUB, OP_DUP] + crate::script::push_int_bytes(0) + seq![OP_LESSTHAN, OP_IF]
        + crate::script::push_int_bytes(M31_MODULUS as int) + seq![OP_ADD, OP_ENDIF]
}

/// The bytes of the limb recomposition.
pub open spec fn recompose_bytes() -> Seq<u8> {
    check_limb_format_bytes() + op_256mul_bytes() + seq![OP_SWAP] + check_limb_format_bytes()
        + seq![OP_ADD] + op_256mul_bytes() + seq![OP_SWAP] + check_limb_format_bytes() + seq![
        OP_ADD,
    ] + op_256mul_bytes() + seq![OP_SWAP] + check_limb_format_bytes() + seq![OP_ADD]
}

/// The bytes of one double-and-add step for the given bit.
pub open spec fn mul_step_bytes(bit: int) -> Seq<u8> {
    seq![OP_DUP] + m31_add_bytes() + seq![OP_SWAP, OP_DUP] + crate::script::push_int_bytes(
        vstd::arithmetic::power2::pow2(bit as nat) as int,
    ) + seq![OP_GREATERTHANOREQUAL, OP_IF] + crate::script::push_int_bytes(
        vstd::arithmetic::power2::pow2(bit as nat) as int,
    ) + seq![OP_SUB, OP_SWAP] + crate::script::push_int_bytes(2) + seq![OP_PICK] + m31_add_bytes()
        + seq![OP_ELSE, OP_SWAP, OP_ENDIF]
}

/// The bytes of the double-and-add steps for the bits in [lo, hi),
/// highest first.
pub open spec fn mul_steps_between(hi: int, lo: int) -> Seq<u8>
    decreases hi - lo when lo <= hi
{
    if hi <= lo {
        seq![]
    } else {
        mul_step_bytes(hi - 1) + mul_steps_between(hi - 1, lo)
    }
}

/// Peeling the lowest bit off a step range appends its step's bytes.
pub proof fn lemma_mul_steps_peel(hi: int, lo: int)
    requires
        lo < hi,
    ensures
        mul_steps_between(hi, lo) == mul_steps_between(hi, lo + 1) + mul_step_bytes(lo),
    decreases hi - lo,
{
    if lo + 1 < hi {
        lemma_mul_steps_peel(hi - 1, lo);
        assert(mul_steps_between(hi, lo) == mul_step_bytes(hi - 1) + mul_steps_between(hi - 1, lo));
        assert(mul_steps_between(hi, lo + 1) == mul_step_bytes(hi - 1) + mul_steps_between(
            hi - 1,
            lo + 1,
        ));
        assert(mul_steps_between(hi, lo) =~= mul_steps_between(hi, lo + 1) + mul_step_bytes(lo));
    } else {
        assert(hi == lo + 1);
        assert(mul_steps_between(hi, lo) == mul_step_bytes(lo) + mul_steps_between(lo, lo));
        assert(mul_steps_between(lo, lo) =~= Seq::<u8>::empty());
        assert(mul_steps_between(hi, lo + 1) =~= Seq::<u8>::empty());
        assert(mul_steps_between(hi, lo) =~= mul_steps_between(hi, lo + 1) + mul_step_bytes(lo));
    }
}

/// The bytes of the reduced field multiplication.
pub open spec fn m31_mul_bytes() -> Seq<u8> {
    crate::script::push_int_bytes(0) + mul_steps_between(31, 0) + seq![
        OP_ROT,
        OP_DROP,
        OP_SWAP,
        OP_DROP,
    ]
}

/// The bytes of one table read: the index on top is offset by the
/// table's baked-in depth and resolved through a positional copy.
pub open spec fn table_pick_bytes(d: int) -> Seq<u8> {
    crate::script::push_int_bytes(d) + seq![OP_ADD, OP_PICK]
}

/// The bytes of one quarter-square partial product folded into the
/// accumulator: the two limbs are copied up, the table is read at their
/// sum and at their distance, and the difference of the two quarter
/// squares — exactly the product — is added to the accumulator in the
/// field.  `d0` is the depth of the table's shallowest entry measured
/// with only the eight operand limbs above it.
pub open spec fn prod_acc_bytes(d0: int, i: int, i2: int) -> Seq<u8> {
    crate::script::push_int_bytes(8 - i) + seq![OP_PICK] + crate::script::push_int_bytes(5 - i2)
        + seq![OP_PICK, OP_2DUP, OP_ADD] + table_pick_bytes(d0 + 11) + seq![
        OP_TOALTSTACK,
        OP_SUB,
        OP_ABS,
    ] + table_pick_bytes(d0 + 9) + seq![OP_FROMALTSTACK, OP_SWAP, OP_SUB] + m31_add_bytes()
}

/// The bytes of the reduced doubling of the top lane.
pub open spec fn double_bytes() -> Seq<u8> {
    seq![OP_DUP] + m31_add_bytes()
}

/// The bytes of eight reduced doublings: the top lane times 256 in the
/// field.
pub open spec fn times256_bytes() -> Seq<u8> {
    double_bytes() + double_bytes() + double_bytes() + double_bytes() + double_bytes()
        + double_bytes() + double_bytes() + double_bytes()
}

/// The bytes that fold one convolution coefficient into the accumulator:
/// every limb pair whose indices sum to `j`, each through the table.
pub open spec fn coeff_bytes(d0: int, j: int) -> Seq<u8> {
    if j == 0 {
        prod_acc_bytes(d0, 0, 0)
    } else if j == 1 {
        prod_acc_bytes(d0, 0, 1) + prod_acc_bytes(d0, 1, 0)
    } else if j == 2 {
        prod_acc_bytes(d0, 0, 2) + prod_acc_bytes(d0, 1, 1) + prod_acc_bytes(d0, 2, 0)
    } else if j == 3 {
        prod_acc_bytes(d0, 0, 3) + prod_acc_bytes(d0, 1, 2) + prod_acc_bytes(d0, 2, 1)
            + prod_acc_bytes(d0, 3, 0)
    } else if j == 4 {
        prod_acc_bytes(d0, 1, 3) + prod_acc_bytes(d0, 2, 2) + prod_acc_bytes(d0, 3, 1)
    } else if j == 5 {
        prod_acc_bytes(d0, 2, 3) + prod_acc_bytes(d0, 3, 2)
    } else {
        prod_acc_bytes(d0, 3, 3)
    }
}

/// The bytes of the Horner fold over the convolution coefficients from
/// the most significant down to `j`: each step multiplies the
/// accumulator by 256 in the field and folds one coefficient in.
pub open spec fn horner_bytes(d0: int, j: int) -> Seq<u8>
    decreases 7 - j when 0 <= j <= 7
{
    if j >= 7 {
        seq![]
    } else {
        horner_bytes(d0, j + 1) + times256_bytes() + coeff_bytes(d0, j)
    }
}

/// The bytes of the limb multiplier's snippet, resolved against the
/// table's position `k` (the depth of the table's deepest entry when the
/// eight operand limbs stand on top): an accumulator is seeded with
/// zero, the sixteen partial products are read from the quarter-square
/// table and Horner-folded with stepwise reduction, and the consumed
/// operands are dropped beneath the result.
pub open spec fn limbs_mul_bytes(k: int) -> Seq<u8> {
    crate::script::push_int_bytes(0) + horner_bytes(k - 512, 0) + seq![
        OP_TOALTSTACK,
        OP_DROP,
        OP_DROP,
        OP_DROP,
        OP_DROP,
        OP_DROP,
        OP_DROP,
        OP_DROP,
        OP_DROP,
        OP_FROMALTSTACK,
    ]
}

/// The emitted gadgets of the limb multiplier.
pub struct M31MultGadget;

impl M31MultGadget {
    /// The snippet that consumes two four-limb byte operands and leaves
    /// the reduced product, reading every partial product from the
    /// shared quarter-square table at its resolved depth `pos`.
    pub fn mult_from_limbs(pos: usize) -> (r: Vec<u8>)
        requires
            512 <= pos < 0x1000_0000,
        ensures
            r@ == limbs_mul_bytes(pos as int),
    {
        let d0: i64 = (pos - 512) as i64;
        let mut s: Vec<u8> = Vec::new();
        emit_push_int(&mut s, 0);
        proof {
            assert(horner_bytes(d0 as int, 7) =~= Seq::<u8>::empty());
            assert(s@ =~= crate::script::push_int_bytes(0) + horner_bytes(d0 as int, 7));
        }
        let mut j: i64 = 7;
        while j > 0
            invariant
                0 <= j <= 7,
                0 <= d0 < 0x1000_0000,
                s@ == crate::script::push_int_bytes(0) + horner_bytes(d0 as int, j as int),
            decreases j,
        {
            j = j - 1;
            emit_times256(&mut s);
            emit_coeff(&mut s, d0, j);
            proof {
                assert(s@ =~= crate::script::push_int_bytes(0) + horner_bytes(
                    d0 as int,
                    j as int,
                ));
            }
        }
        emit_op(&mut s, OP_TOALTSTACK);
        let mut c: u32 = 0;
        while c < 8
            invariant
                0 <= c <= 8,
                s@ == crate::script::push_int_bytes(0) + horner_bytes(d0 as int, 0) + seq![
                    OP_TOALTSTACK,
                ] + Seq::new(c as nat, |x: int| OP_DROP),
            decreases 8 - c,
        {
            emit_op(&mut s, OP_DROP);
            proof {
                assert(Seq::new((c + 1) as nat, |x: int| OP_DROP) =~= Seq::new(
                    c as nat,
                    |x: int| OP_DROP,
                ).push(OP_DROP));
            }
            c = c + 1;
        }
        emit_op(&mut s, OP_FROMALTSTACK);
        proof {
            assert(Seq::new(8nat, |x: int| OP_DROP) =~= seq![
                OP_DROP,
                OP_DROP,
                OP_DROP,
                OP_DROP,
                OP_DROP,
                OP_DROP,
                OP_DROP,
                OP_DROP,
            ]);
            assert(s@ =~= limbs_mul_bytes(pos as int));
        }
        s
    }
}

/// Appends one partial product of the limbs at indices `i` and `i2`,
/// read through the table and folded into the accumulator.
fn emit_prod_acc(s: &mut Vec<u8>, d0: i64, i: i64, i2: i64)
    requires
        0 <= i < 4,
        0 <= i2 < 4,
        0 <= d0 < 0x1000_0000,
    ensures
        final(s)@ == old(s)@ + prod_acc_bytes(d0 as int, i as int, i2 as int),
{
    emit_push_int(s, 8 - i);
    emit_op(s, OP_PICK);
    emit_push_int(s, 5 - i2);
    emit_op(s, OP_PICK);
    emit_op(s, OP_2DUP);
    emit_op(s, OP_ADD);
    emit_push_int(s, d0 + 11);
    emit_op(s, OP_ADD);
    emit_op(s, OP_PICK);
    emit_op(s, OP_TOALTSTACK);
    emit_op(s, OP_SUB);
    emit_op(s, OP_ABS);
    emit_push_int(s, d0 + 9);
    emit_op(s, OP_ADD);
    emit_op(s, OP_PICK);
    emit_op(s, OP_FROMALTSTACK);
    emit_op(s, OP_SWAP);
    emit_op(s, OP_SUB);
    let madd = m31_add_snippet();
    emit_all(s, &madd);
    proof {
        assert(s@ =~= old(s)@ + prod_acc_bytes(d0 as int, i as int, i2 as int));
    }
}

/// Appends eight reduced doublings of the top lane.
fn emit_times256(s: &mut Vec<u8>)
    ensures
        final(s)@ == old(s)@ + times256_bytes(),
{
    let madd = m31_add_snippet();
    let mut c: u32 = 0;
    while c < 8
        invariant
            0 <= c <= 8,
            madd@ == m31_add_bytes(),
            c == 0 ==> s@ == old(s)@,
            c == 1 ==> s@ == old(s)@ + double_bytes(),
            c == 2 ==> s@ == old(s)@ + double_bytes() + double_bytes(),
            c == 3 ==> s@ == old(s)@ + double_bytes() + double_bytes() + double_bytes(),
            c == 4 ==> s@ == old(s)@ + double_bytes() + double_bytes() + double_bytes()
                + double_bytes(),
            c == 5 ==> s@ == old(s)@ + double_bytes() + double_bytes() + double_bytes()
                + double_bytes() + double_bytes(),
            c == 6 ==> s@ == old(s)@ + double_bytes() + double_bytes() + double_bytes()
                + double_bytes() + double_bytes() + double_bytes(),
            c == 7 ==> s@ == old(s)@ + double_bytes() + double_bytes() + double_bytes()
                + double_bytes() + double_bytes() + double_bytes() + double_bytes(),
            c == 8 ==> s@ == old(s)@ + times256_bytes(),
        decreases 8 - c,
    {
        emit_op(s, OP_DUP);
        emit_all(s, &madd);
        proof {
            assert(s@ =~= s@);
        }
        c = c + 1;
    }
}

/// Appends the fold of one convolution coefficient.
fn emit_coeff(s: &mut Vec<u8>, d0: i64, j: i64)
    requires
        0 <= j <= 6,
        0 <= d0 < 0x1000_0000,
    ensures
        final(s)@ == old(s)@ + coeff_bytes(d0 as int, j as int),
{
    if j == 0 {
        emit_prod_acc(s, d0, 0, 0);
    } else if j == 1 {
        emit_prod_acc(s, d0, 0, 1);
        emit_prod_acc(s, d0, 1, 0);
    } else if j == 2 {
        emit_prod_acc(s, d0, 0, 2);
        emit_prod_acc(s, d0, 1, 1);
        emit_prod_acc(s, d0, 2, 0);
    } else if j == 3 {
        emit_prod_acc(s, d0, 0, 3);
        emit_prod_acc(s, d0, 1, 2);
        emit_prod_acc(s, d0, 2, 1);
        emit_prod_acc(s, d0, 3, 0);
    } else if j == 4 {
        emit_prod_acc(s, d0, 1, 3);
        emit_prod_acc(s, d0, 2, 2);
        emit_prod_acc(s, d0, 3, 1);
    } else if j == 5 {
        emit_prod_acc(s, d0, 2, 3);
        emit_prod_acc(s, d0, 3, 2);
    } else {
        emit_prod_acc(s, d0, 3, 3);
    }
    proof {
        assert(s@ =~= old(s)@ + coeff_bytes(d0 as int, j as int));
    }
}

/// The bytes of the plain limb-wise sum.
pub open spec fn add_limbs_bytes() -> Seq<u8> {
    crate::script::push_int_bytes(4) + seq![OP_PICK, OP_ADD, OP_TOALTSTACK]
        + crate::script::push_int_bytes(4) + seq![OP_PICK, OP_ADD, OP_TOALTSTACK]
        + crate::script::push_int_bytes(4) + seq![OP_PICK, OP_ADD, OP_TOALTSTACK]
        + crate::script::push_int_bytes(4) + seq![OP_PICK, OP_ADD, OP_TOALTSTACK] + seq![
        OP_DROP,
        OP_DROP,
        OP_DROP,
        OP_DROP,
        OP_FROMALTSTACK,
        OP_FROMALTSTACK,
        OP_FROMALTSTACK,
        OP_FROMALTSTACK,
    ]
}

/// The bytes of the reduced limb sum.
pub open spec fn add_limbs_with_reduction_bytes() -> Seq<u8> {
    recompose_bytes() + seq![OP_TOALTSTACK] + recompose_bytes() + seq![OP_FROMALTSTACK]
        + m31_add_bytes()
}

/// The emitted gadgets of limb addition.
pub struct M31LimbsGadget;

impl M31LimbsGadget {
    /// The snippet of the plain limb-wise sum: eight limbs in, four
    /// unreduced sums out.
    pub fn add_limbs() -> (r: Vec<u8>)
        ensures
            r@ == add_limbs_bytes(),
    {
        let mut s: Vec<u8> = Vec::new();
        // stack: a0 a1 a2 a3 b0 b1 b2 b3
        emit_push_int(&mut s, 4);
        emit_op(&mut s, OP_PICK);  // a3
        emit_op(&mut s, OP_ADD);  // b3 + a3
        emit_op(&mut s, OP_TOALTSTACK);
        emit_push_int(&mut s, 4);
        emit_op(&mut s, OP_PICK);
        emit_op(&mut s, OP_ADD);
        emit_op(&mut s, OP_TOALTSTACK);
        emit_push_int(&mut s, 4);
        emit_op(&mut s, OP_PICK);
        emit_op(&mut s, OP_ADD);
        emit_op(&mut s, OP_TOALTSTACK);
        emit_push_int(&mut s, 4);
        emit_op(&mut s, OP_PICK);
        emit_op(&mut s, OP_ADD);
        emit_op(&mut s, OP_TOALTSTACK);
        // drop the first operand, restore the sums
        emit_op(&mut s, OP_DROP);
        emit_op(&mut s, OP_DROP);
        emit_op(&mut s, OP_DROP);
        emit_op(&mut s, OP_DROP);
        emit_op(&mut s, OP_FROMALTSTACK);
        emit_op(&mut s, OP_FROMALTSTACK);
        emit_op(&mut s, OP_FROMALTSTACK);
        emit_op(&mut s, OP_FROMALTSTACK);
        proof {
            assert(s@ =~= add_limbs_bytes());
        }
        s
    }

    /// The snippet of the reduced limb sum: the operands are recomposed,
    /// added in the field, and the verifier re-checks the decomposition
    /// of the reduced sum supplied by the prover's four topmost limbs.
    pub fn add_limbs_with_reduction() -> (r: Vec<u8>)
        ensures
            r@ == add_limbs_with_reduction_bytes(),
    {
        let mut s: Vec<u8> = Vec::new();
        // recompose both operands and add them in the field
        let rec = recompose_snippet();
        emit_all(&mut s, &rec);
        emit_op(&mut s, OP_TOALTSTACK);
        let rec = recompose_snippet();
        emit_all(&mut s, &rec);
        emit_op(&mut s, OP_FROMALTSTACK);
        let add = m31_add_snippet();
        emit_all(&mut s, &add);
        proof {
            assert(s@ =~= add_limbs_with_reduction_bytes());
        }
        s
    }
}

/// The snippet that folds four byte limbs (deepest least significant)
/// into the single field element they spell.
pub fn recompose_snippet() -> (r: Vec<u8>)
    ensures
        r@ == recompose_bytes(),
{
    let mut s: Vec<u8> = Vec::new();
    // stack: l0 l1 l2 l3 -- value
    let chk = check_limb_format();
    let m256 = OP_256MUL();
    emit_all(&mut s, &chk);
    emit_all(&mut s, &m256);
    emit_op(&mut s, OP_SWAP);
    emit_all(&mut s, &chk);
    emit_op(&mut s, OP_ADD);
    emit_all(&mut s, &m256);
    emit_op(&mut s, OP_SWAP);
    emit_all(&mut s, &chk);
    emit_op(&mut s, OP_ADD);
    emit_all(&mut s, &m256);
    emit_op(&mut s, OP_SWAP);
    emit_all(&mut s, &chk);
    emit_op(&mut s, OP_ADD);
    s
}

/// The snippet of the reduced field addition of the two topmost stack
/// numbers, kept within the signed 32-bit number lane by subtracting the
/// modulus' complement.
pub fn m31_add_snippet() -> (r: Vec<u8>)
    ensures
        r@ == m31_add_bytes(),
{
    let mut s: Vec<u8> = Vec::new();
    emit_push_int(&mut s, M31_MODULUS as i64);
    emit_op(&mut s, OP_SWAP);
    emit_op(&mut s, OP_SUB);
    emit_op(&mut s, OP_SUB);
    emit_op(&mut s, OP_DUP);
    emit_push_int(&mut s, 0);
    emit_op(&mut s, OP_LESSTHAN);
    emit_op(&mut s, OP_IF);
    emit_push_int(&mut s, M31_MODULUS as i64);
    emit_op(&mut s, OP_ADD);
    emit_op(&mut s, OP_ENDIF);
    s
}

/// The snippet of the reduced field subtraction of the topmost number
/// from the one below it.
pub fn m31_sub_snippet() -> (r: Vec<u8>)
    ensures
        r@ == m31_sub_bytes(),
{
    let mut s: Vec<u8> = Vec::new();
    emit_op(&mut s, OP_SUB);
    emit_op(&mut s, OP_DUP);
    emit_push_int(&mut s, 0);
    emit_op(&mut s, OP_LESSTHAN);
    emit_op(&mut s, OP_IF);
    emit_push_int(&mut s, M31_MODULUS as i64);
    emit_op(&mut s, OP_ADD);
    emit_op(&mut s, OP_ENDIF);
    s
}

/// The snippet of the reduced field multiplication of the two topmost
/// numbers: a double-and-add walk over the bits of the upper operand.
#[verifier::rlimit(60)]
pub fn m31_mul_snippet() -> (r: Vec<u8>)
    ensures
        r@ == m31_mul_bytes(),
{
    let mut s: Vec<u8> = Vec::new();
    // stack: b a -- with the accumulator pushed: b a acc
    emit_push_int(&mut s, 0);
    let madd = m31_add_snippet();
    let mut bit: u32 = 31;
    proof {
        assert(mul_steps_between(31, 31) =~= Seq::<u8>::empty());
        assert(s@ =~= crate::script::push_int_bytes(0) + mul_steps_between(31, 31));
    }
    while bit > 0
        invariant
            bit <= 31,
            madd@ == m31_add_bytes(),
            s@ == crate::script::push_int_bytes(0) + mul_steps_between(31, bit as int),
        decreases bit,
    {
        bit = bit - 1;
        let powv: u64 = 1u64 << (bit as u64);
        proof {
            vstd::arithmetic::power2::lemma2_to64();
            assert(vstd::arithmetic::power2::pow2(bit as nat) <= 0x4000_0000) by {
                if bit < 30 {
                    vstd::arithmetic::power2::lemma_pow2_strictly_increases(bit as nat, 30nat);
                }
            }
            vstd::bits::lemma_u64_shl_is_mul(1u64, bit as u64);
            lemma_mul_steps_peel(31, bit as int);
        }
        // double the accumulator
        emit_op(&mut s, OP_DUP);
        emit_all(&mut s, &madd);
        // extract the next bit of the middle operand
        emit_op(&mut s, OP_SWAP);
        emit_op(&mut s, OP_DUP);
        emit_push_int(&mut s, powv as i64);
        emit_op(&mut s, OP_GREATERTHANOREQUAL);
        emit_op(&mut s, OP_IF);
        emit_push_int(&mut s, powv as i64);
        emit_op(&mut s, OP_SUB);
        emit_op(&mut s, OP_SWAP);
        emit_push_int(&mut s, 2);
        emit_op(&mut s, OP_PICK);
        emit_all(&mut s, &madd);
        emit_op(&mut s, OP_ELSE);
        emit_op(&mut s, OP_SWAP);
        emit_op(&mut s, OP_ENDIF);
        proof {
            assert(s@ =~= crate::script::push_int_bytes(0) + mul_steps_between(31, bit as int));
        }
    }
    // stack: b a acc -- drop the consumed operands
    emit_op(&mut s, OP_ROT);
    emit_op(&mut s, OP_DROP);
    emit_op(&mut s, OP_SWAP);
    emit_op(&mut s, OP_DROP);
    s
}

/// The depth-dependent limb multiplication snippet the planner splices
/// in for the table-backed multiplier, resolved against the table's
/// position.
pub fn m31_limbs_mul_snippet(pos: usize) -> (r: Vec<u8>)
    requires
        512 <= pos < 0x1000_0000,
    ensures
        r@ == limbs_mul_bytes(pos as int),
{
    M31MultGadget::mult_from_limbs(pos)
}

} // verus!
