use vstd::prelude::*;
use crate::builtins::table::m31::{
    m31_add_snippet, m31_sub_snippet, recompose_snippet, m31_mul_snippet, M31Limbs, M31Mult,
};
use crate::builtins::table::utils::{
    cm31_mul_s, cm31_int, is_cm31, limb_ints, limbs_val, M31_MODULUS,
};
use crate::errors::Error;
use crate::script::{
    emit_all, emit_op, OP_DROP, OP_FROMALTSTACK, OP_SWAP, OP_TOALTSTACK,
};

verus! {

/// The native quotients of one CM31 multiplication: one per Karatsuba
/// product, each the product's value divided by the modulus.
pub struct CM31MultHint {
    pub q1: u32,
    pub q2: u32,
    pub q3: u32,
}

/// The native side of the table-backed CM31 multiplication.
pub struct CM31Mult;

impl CM31Mult {
    /// The three native quotients for the products of the real parts,
    /// the imaginary parts, and the limb-wise sums.  Fails when a
    /// quotient outgrows its lane, which only the sum product can bring
    /// about.
    pub fn compute_hint_from_limbs(
        a_real: &[u32],
        a_imag: &[u32],
        b_real: &[u32],
        b_imag: &[u32],
    ) -> (r: Result<CM31MultHint, Error>)
        requires
            a_real@.len() == 4,
            a_imag@.len() == 4,
            b_real@.len() == 4,
            b_imag@.len() == 4,
            forall|i: int| 0 <= i < 4 ==> #[trigger] a_real@[i] < 256,
            forall|i: int| 0 <= i < 4 ==> #[trigger] a_imag@[i] < 256,
            forall|i: int| 0 <= i < 4 ==> #[trigger] b_real@[i] < 256,
            forall|i: int| 0 <= i < 4 ==> #[trigger] b_imag@[i] < 256,
        ensures
            r matches Ok(h) ==> {
                &&& h.q3 == limbs_val(limb_ints(a_real@)) * limbs_val(limb_ints(b_real@)) / (
                M31_MODULUS as int)
                &&& h.q2 == limbs_val(limb_ints(a_imag@)) * limbs_val(limb_ints(b_imag@)) / (
                M31_MODULUS as int)
                &&& h.q1 == (limbs_val(limb_ints(a_real@)) + limbs_val(limb_ints(a_imag@))) * (
                limbs_val(limb_ints(b_real@)) + limbs_val(limb_ints(b_imag@))) / (
                M31_MODULUS as int)
            },
            r is Err ==> (limbs_val(limb_ints(a_real@)) + limbs_val(limb_ints(a_imag@))) * (
            limbs_val(limb_ints(b_real@)) + limbs_val(limb_ints(b_imag@))) / (M31_MODULUS as int)
                > u32::MAX || limbs_val(limb_ints(a_real@)) * limbs_val(limb_ints(b_real@)) / (
            M31_MODULUS as int) > u32::MAX || limbs_val(limb_ints(a_imag@)) * limbs_val(
                limb_ints(b_imag@),
            ) / (M31_MODULUS as int) > u32::MAX,
    {
        let a_real_b_real = M31Mult::compute_c_limbs_from_limbs(a_real, b_real)?;
        let q3 = M31Mult::compute_q(a_real_b_real.as_slice())?;

        let a_imag_b_imag = M31Mult::compute_c_limbs_from_limbs(a_imag, b_imag)?;
        let q2 = M31Mult::compute_q(a_imag_b_imag.as_slice())?;

        let a_sum = M31Limbs::add_limbs(a_real, a_imag);
        let b_sum = M31Limbs::add_limbs(b_real, b_imag);
        proof {
            lemma_plain_sum_value(a_real@, a_imag@, a_sum@);
            lemma_plain_sum_value(b_real@, b_imag@, b_sum@);
        }
        let a_sum_b_sum = M31Mult::compute_c_limbs_from_limbs(a_sum.as_slice(), b_sum.as_slice())?;
        let q1 = M31Mult::compute_q(a_sum_b_sum.as_slice())?;
        Ok(CM31MultHint { q1, q2, q3 })
    }

    /// The native quotients for the product of two CM31 values given as
    /// (real, imaginary) pairs of reduced field elements.
    pub fn compute_hint(a: &[u32], b: &[u32]) -> (r: Result<CM31MultHint, Error>)
        requires
            a@.len() == 2,
            b@.len() == 2,
        ensures
            r matches Ok(h) ==> {
                &&& h.q3 == (a@[0] * b@[0]) / (M31_MODULUS as int)
                &&& h.q2 == (a@[1] * b@[1]) / (M31_MODULUS as int)
                &&& h.q1 == ((a@[0] + a@[1]) * (b@[0] + b@[1])) / (M31_MODULUS as int)
            },
    {
        let a_real = crate::builtins::table::utils::convert_m31_to_limbs(a[0]);
        let a_imag = crate::builtins::table::utils::convert_m31_to_limbs(a[1]);
        let b_real = crate::builtins::table::utils::convert_m31_to_limbs(b[0]);
        let b_imag = crate::builtins::table::utils::convert_m31_to_limbs(b[1]);
        proof {
            crate::builtins::table::utils::lemma_limbs_of_val(a@[0] as u32);
            crate::builtins::table::utils::lemma_limbs_of_val(a@[1] as u32);
            crate::builtins::table::utils::lemma_limbs_of_val(b@[0] as u32);
            crate::builtins::table::utils::lemma_limbs_of_val(b@[1] as u32);
        }
        Self::compute_hint_from_limbs(
            a_real.as_slice(),
            a_imag.as_slice(),
            b_real.as_slice(),
            b_imag.as_slice(),
        )
    }
}

/// The plain limb-wise sum of two four-limb operands recomposes to the
/// sum of their values.
pub proof fn lemma_plain_sum_value(a: Seq<u32>, b: Seq<u32>, s: Seq<u32>)
    requires
        a.len() == 4,
        b.len() == 4,
        s.len() == 4,
        forall|i: int| 0 <= i < 4 ==> #[trigger] s[i] == a[i] + b[i],
    ensures
        limbs_val(limb_ints(s)) == limbs_val(limb_ints(a)) + limbs_val(limb_ints(b)),
{
    reveal_with_fuel(crate::builtins::table::utils::limbs_val_from, 6);
    assert(limb_ints(s) =~= seq![
        a[0] + b[0] as int,
        a[1] + b[1] as int,
        a[2] + b[2] as int,
        a[3] + b[3] as int,
    ]);
    assert(limb_ints(a) =~= seq![a[0] as int, a[1] as int, a[2] as int, a[3] as int]);
    assert(limb_ints(b) =~= seq![b[0] as int, b[1] as int, b[2] as int, b[3] as int]);
}

/// Native limb arithmetic on the eight-limb form of a CM31 element.
pub struct CM31Limbs;

impl CM31Limbs {
    /// The reduced limb sum of two eight-limb operands, half by half.
    pub fn add_limbs(a: &[u32], b: &[u32]) -> (r: Vec<u32>)
        requires
            a@.len() == 8,
            b@.len() == 8,
            forall|i: int| 0 <= i < 8 ==> #[trigger] a@[i] < 256,
            forall|i: int| 0 <= i < 8 ==> #[trigger] b@[i] < 256,
            limbs_val(limb_ints(a@.subrange(0, 4))) < M31_MODULUS,
            limbs_val(limb_ints(a@.subrange(4, 8))) < M31_MODULUS,
            limbs_val(limb_ints(b@.subrange(0, 4))) < M31_MODULUS,
            limbs_val(limb_ints(b@.subrange(4, 8))) < M31_MODULUS,
        ensures
            r@.len() == 8,
            forall|i: int| 0 <= i < 8 ==> #[trigger] r@[i] < 256,
            limbs_val(limb_ints(r@.subrange(0, 4))) == (limbs_val(limb_ints(a@.subrange(0, 4)))
                + limbs_val(limb_ints(b@.subrange(0, 4)))) % (M31_MODULUS as int),
            limbs_val(limb_ints(r@.subrange(4, 8))) == (limbs_val(limb_ints(a@.subrange(4, 8)))
                + limbs_val(limb_ints(b@.subrange(4, 8)))) % (M31_MODULUS as int),
    {
        let a_lo = [a[0], a[1], a[2], a[3]];
        let a_hi = [a[4], a[5], a[6], a[7]];
        let b_lo = [b[0], b[1], b[2], b[3]];
        let b_hi = [b[4], b[5], b[6], b[7]];
        proof {
            assert(limb_ints(a_lo@) =~= limb_ints(a@.subrange(0, 4)));
            assert(limb_ints(a_hi@) =~= limb_ints(a@.subrange(4, 8)));
            assert(limb_ints(b_lo@) =~= limb_ints(b@.subrange(0, 4)));
            assert(limb_ints(b_hi@) =~= limb_ints(b@.subrange(4, 8)));
        }
        let lo = M31Limbs::add_limbs_with_reduction(a_lo.as_slice(), b_lo.as_slice());
        let hi = M31Limbs::add_limbs_with_reduction(a_hi.as_slice(), b_hi.as_slice());
        let mut r: Vec<u32> = Vec::new();
        r.push(lo[0]);
        r.push(lo[1]);
        r.push(lo[2]);
        r.push(lo[3]);
        r.push(hi[0]);
        r.push(hi[1]);
        r.push(hi[2]);
        r.push(hi[3]);
        proof {
            assert(limb_ints(r@.subrange(0, 4)) =~= limb_ints(lo@));
            assert(limb_ints(r@.subrange(4, 8)) =~= limb_ints(hi@));
        }
        r
    }
}

/// The bytes of the eight-limb reduced sum gadget.
pub open spec fn cm31_add_limbs_bytes() -> Seq<u8> {
    crate::builtins::table::m31::recompose_bytes() + seq![OP_TOALTSTACK]
        + crate::builtins::table::m31::recompose_bytes() + seq![OP_TOALTSTACK]
        + crate::builtins::table::m31::recompose_bytes() + seq![OP_TOALTSTACK]
        + crate::builtins::table::m31::recompose_bytes() + seq![OP_FROMALTSTACK]
        + crate::builtins::table::m31::m31_add_bytes() + seq![OP_FROMALTSTACK, OP_FROMALTSTACK]
        + crate::builtins::table::m31::m31_add_bytes() + seq![OP_SWAP]
}

/// The bytes of four positional copies from one constant depth: copying
/// a four-limb block whose slots keep that depth as the copies pile up.
pub open spec fn copies_bytes(d: int) -> Seq<u8> {
    crate::script::push_int_bytes(d) + seq![crate::script::OP_PICK]
        + crate::script::push_int_bytes(d) + seq![crate::script::OP_PICK]
        + crate::script::push_int_bytes(d) + seq![crate::script::OP_PICK]
        + crate::script::push_int_bytes(d) + seq![crate::script::OP_PICK]
}

/// The bytes of sixteen drops.
pub open spec fn drops16_bytes() -> Seq<u8> {
    seq![
        OP_DROP,
        OP_DROP,
        OP_DROP,
        OP_DROP,
        OP_DROP,
        OP_DROP,
        OP_DROP,
        OP_DROP,
        OP_DROP,
        OP_DROP,
        OP_DROP,
        OP_DROP,
        OP_DROP,
        OP_DROP,
        OP_DROP,
        OP_DROP,
    ]
}

/// The bytes of the table-backed CM31 product gadget, resolved against
/// the table's position `k` (the depth of the table's deepest entry when
/// the sixteen operand limbs stand on top): the two cross products, the
/// imaginary square and the real square are each computed by the
/// table-read limb multiplier on copied operand blocks, then folded into
/// the real and imaginary components.
pub open spec fn cm31_mult_bytes(k: int) -> Seq<u8> {
    copies_bytes(15) + copies_bytes(7) + crate::builtins::table::m31::limbs_mul_bytes(k + 8)
        + seq![OP_TOALTSTACK] + copies_bytes(11) + copies_bytes(11)
        + crate::builtins::table::m31::limbs_mul_bytes(k + 8) + seq![OP_TOALTSTACK]
        + copies_bytes(11) + copies_bytes(7) + crate::builtins::table::m31::limbs_mul_bytes(k + 8)
        + seq![OP_TOALTSTACK] + copies_bytes(15) + copies_bytes(11)
        + crate::builtins::table::m31::limbs_mul_bytes(k + 8) + seq![OP_TOALTSTACK]
        + drops16_bytes() + seq![OP_FROMALTSTACK, OP_FROMALTSTACK]
        + crate::builtins::table::m31::m31_sub_bytes() + seq![OP_FROMALTSTACK, OP_FROMALTSTACK]
        + crate::builtins::table::m31::m31_add_bytes() + seq![OP_SWAP]
}

/// The emitted gadget of the eight-limb reduced sum.
pub struct CM31LimbsGadget;

impl CM31LimbsGadget {
    /// The snippet of the reduced limb sum over two eight-limb CM31
    /// operands: the halves are recomposed, added in the field, and the
    /// two reduced components are left on the stack.
    pub fn add_limbs() -> (r: Vec<u8>)
        ensures
            r@ == cm31_add_limbs_bytes(),
    {
        let mut s: Vec<u8> = Vec::new();
        // stack: aR(4) aI(4) bR(4) bI(4)
        let rec = recompose_snippet();
        let madd = m31_add_snippet();
        // fold the imaginary halves
        emit_all(&mut s, &rec);
        emit_op(&mut s, OP_TOALTSTACK);
        emit_all(&mut s, &rec);
        emit_op(&mut s, OP_TOALTSTACK);
        // fold the real halves
        emit_all(&mut s, &rec);
        emit_op(&mut s, OP_TOALTSTACK);
        emit_all(&mut s, &rec);
        emit_op(&mut s, OP_FROMALTSTACK);
        emit_all(&mut s, &madd);
        // restore and fold the imaginary sum
        emit_op(&mut s, OP_FROMALTSTACK);
        emit_op(&mut s, OP_FROMALTSTACK);
        emit_all(&mut s, &madd);
        emit_op(&mut s, OP_SWAP);
        proof {
            assert(s@ =~= cm31_add_limbs_bytes());
        }
        s
    }
}

/// The emitted gadget of the table-backed CM31 multiplication.
pub struct CM31MultGadget;

impl CM31MultGadget {
    /// Appends four positional copies from one constant depth, lifting a
    /// four-limb block to the top.
    fn emit_copies(s: &mut Vec<u8>, d: i64)
        requires
            0 <= d < 16,
        ensures
            final(s)@ == old(s)@ + copies_bytes(d as int),
    {
        crate::script::emit_push_int(s, d);
        emit_op(s, crate::script::OP_PICK);
        crate::script::emit_push_int(s, d);
        emit_op(s, crate::script::OP_PICK);
        crate::script::emit_push_int(s, d);
        emit_op(s, crate::script::OP_PICK);
        crate::script::emit_push_int(s, d);
        emit_op(s, crate::script::OP_PICK);
        proof {
            assert(s@ =~= old(s)@ + copies_bytes(d as int));
        }
    }

    /// The snippet that consumes the sixteen byte limbs of two CM31
    /// operands and leaves the product's imaginary and real components,
    /// reading every partial product from the shared quarter-square
    /// table at its resolved depth `pos`: the two cross products and the
    /// two direct products are each taken by the table-read limb
    /// multiplier on copied operand blocks, then folded.
    pub fn mult(pos: usize) -> (r: Vec<u8>)
        requires
            512 <= pos < 0xfff_fff0,
        ensures
            r@ == cm31_mult_bytes(pos as int),
    {
        let mut s: Vec<u8> = Vec::new();
        // the cross product of the real and imaginary halves
        Self::emit_copies(&mut s, 15);
        Self::emit_copies(&mut s, 7);
        let core = crate::builtins::table::m31::m31_limbs_mul_snippet(pos + 8);
        emit_all(&mut s, &core);
        emit_op(&mut s, OP_TOALTSTACK);
        // the opposite cross product
        Self::emit_copies(&mut s, 11);
        Self::emit_copies(&mut s, 11);
        emit_all(&mut s, &core);
        emit_op(&mut s, OP_TOALTSTACK);
        // the imaginary square
        Self::emit_copies(&mut s, 11);
        Self::emit_copies(&mut s, 7);
        emit_all(&mut s, &core);
        emit_op(&mut s, OP_TOALTSTACK);
        // the real square
        Self::emit_copies(&mut s, 15);
        Self::emit_copies(&mut s, 11);
        emit_all(&mut s, &core);
        emit_op(&mut s, OP_TOALTSTACK);
        // consume the operand limbs
        let mut c: u32 = 0;
        let ghost pre = s@;
        while c < 16
            invariant
                0 <= c <= 16,
                s@ == pre + Seq::new(c as nat, |x: int| OP_DROP),
            decreases 16 - c,
        {
            emit_op(&mut s, OP_DROP);
            proof {
                assert(Seq::new((c + 1) as nat, |x: int| OP_DROP) =~= Seq::new(
                    c as nat,
                    |x: int| OP_DROP,
                ).push(OP_DROP));
            }
            c = c + 1;
        }
        // the real component: the real square less the imaginary square
        emit_op(&mut s, OP_FROMALTSTACK);
        emit_op(&mut s, OP_FROMALTSTACK);
        let msub = m31_sub_snippet();
        emit_all(&mut s, &msub);
        // the imaginary component: the sum of the cross products
        emit_op(&mut s, OP_FROMALTSTACK);
        emit_op(&mut s, OP_FROMALTSTACK);
        let madd = m31_add_snippet();
        emit_all(&mut s, &madd);
        emit_op(&mut s, OP_SWAP);
        proof {
            assert(Seq::new(16nat, |x: int| OP_DROP) =~= drops16_bytes());
            assert(s@ =~= cm31_mult_bytes(pos as int));
        }
        s
    }
}

/// CM31 multiplication of two (real, imaginary) pairs.
pub fn mul_cm31(a: (u32, u32), b: (u32, u32)) -> (r: (u32, u32))
    requires
        is_cm31(a),
        is_cm31(b),
    ensures
        is_cm31(r),
        cm31_int(r) == cm31_mul_s(cm31_int(a), cm31_int(b)),
{
    crate::builtins::table::utils::mul_cm31(a, b)
}

} // verus!
