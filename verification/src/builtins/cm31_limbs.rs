use vstd::prelude::*;
use crate::builtins::cm31::CM31Var;
use crate::builtins::m31::M31Var;
use crate::builtins::m31_limbs::M31LimbsVar;
use crate::builtins::table::m31::{M31Limbs, M31LimbsGadget};
use crate::builtins::table::utils::{
    cm31_mul_s, limb_ints, limbs_val, madd, mmul, msub, M31_MODULUS,
};
use crate::builtins::table::TableVar;
use crate::bvar::BVar;
use crate::constraint_system::ConstraintSystem;
use crate::errors::Error;
use vstd::arithmetic::div_mod::{
    lemma_add_mod_noop, lemma_mod_bound, lemma_mod_multiples_vanish, lemma_sub_mod_noop,
};

verus! {

/// A variable holding the eight-limb decomposition of a CM31 element:
/// the real half's limbs deepest, the imaginary half's above them.
pub struct CM31LimbsVar {
    pub real: M31LimbsVar,
    pub imag: M31LimbsVar,
}

impl CM31LimbsVar {
    /// Both halves hold canonical byte decompositions.
    pub open spec fn canonical(&self) -> bool {
        &&& self.real.canonical()
        &&& self.imag.canonical()
    }

    /// The handle is consistent with the system.
    pub open spec fn wf_in(&self, cs: &ConstraintSystem) -> bool {
        &&& self.real.wf_in(cs)
        &&& self.imag.wf_in(cs)
    }

    /// Decomposes both halves of a CM31 variable into limb hints.
    pub fn from_cm31(cs: &mut ConstraintSystem, v: &CM31Var) -> (r: Result<CM31LimbsVar, Error>)
        requires
            v.wf_in(old(cs)),
            old(cs).wf(),
        ensures
            r is Ok <==> !old(cs).finalized,
            r matches Ok(lv) ==> {
                &&& lv.canonical()
                &&& lv.real.limbs_value() == v.real.value
                &&& lv.imag.limbs_value() == v.imag.value
                &&& lv.wf_in(&*final(cs))
                &&& final(cs).wf()
                &&& final(cs).finalized == false
                &&& old(cs).memory@.len() <= final(cs).memory@.len()
                &&& forall|i: int|
                    0 <= i < old(cs).memory@.len() ==> #[trigger] final(cs).memory@[i]@ == old(
                        cs,
                    ).memory@[i]@
            },
    {
        let re_var = M31LimbsVar::from_m31(cs, &v.real)?;
        let im_var = match M31LimbsVar::from_m31(cs, &v.imag) {
            Ok(x) => x,
            Err(e) => {
                proof {
                    assert(false);
                }
                return Err(e);
            },
        };
        Ok(CM31LimbsVar { real: re_var, imag: im_var })
    }

    /// Records the reduced limb sum of two CM31 limb operands, half by
    /// half: each output half is a canonical decomposition again.
    pub fn add(&self, cs: &mut ConstraintSystem, rhs: &CM31LimbsVar) -> (r: Result<
        CM31LimbsVar,
        Error,
    >)
        requires
            self.wf_in(old(cs)),
            rhs.wf_in(old(cs)),
            old(cs).wf(),
            self.canonical(),
            rhs.canonical(),
        ensures
            r is Ok <==> !old(cs).finalized,
            r matches Ok(v) ==> {
                &&& v.canonical()
                &&& v.real.limbs_value() == madd(self.real.limbs_value(), rhs.real.limbs_value())
                &&& v.imag.limbs_value() == madd(self.imag.limbs_value(), rhs.imag.limbs_value())
                &&& v.wf_in(&*final(cs))
                &&& final(cs).wf()
                &&& final(cs).finalized == false
                &&& old(cs).memory@.len() <= final(cs).memory@.len()
                &&& forall|i: int|
                    0 <= i < old(cs).memory@.len() ==> #[trigger] final(cs).memory@[i]@ == old(
                        cs,
                    ).memory@[i]@
            },
    {
        if cs.finalized {
            return Err(Error::FinalizedMutation);
        }
        let re_var = match Self::add_half(cs, &self.real, &rhs.real) {
            Ok(x) => x,
            Err(e) => {
                proof {
                    assert(false);
                }
                return Err(e);
            },
        };
        let im_var = match Self::add_half(cs, &self.imag, &rhs.imag) {
            Ok(x) => x,
            Err(e) => {
                proof {
                    assert(false);
                }
                return Err(e);
            },
        };
        Ok(CM31LimbsVar { real: re_var, imag: im_var })
    }

    /// Records the reduced limb sum of one half.
    fn add_half(cs: &mut ConstraintSystem, a: &M31LimbsVar, b: &M31LimbsVar) -> (r: Result<
        M31LimbsVar,
        Error,
    >)
        requires
            a.wf_in(old(cs)),
            b.wf_in(old(cs)),
            old(cs).wf(),
            a.canonical(),
            b.canonical(),
        ensures
            r is Ok <==> !old(cs).finalized,
            r matches Ok(v) ==> {
                &&& v.canonical()
                &&& v.limbs_value() == madd(a.limbs_value(), b.limbs_value())
                &&& v.wf_in(&*final(cs))
                &&& final(cs).wf()
                &&& final(cs).finalized == false
                &&& old(cs).memory@.len() <= final(cs).memory@.len()
                &&& forall|i: int|
                    0 <= i < old(cs).memory@.len() ==> #[trigger] final(cs).memory@[i]@ == old(
                        cs,
                    ).memory@[i]@
            },
    {
        if cs.finalized {
            return Err(Error::FinalizedMutation);
        }
        let sums = M31Limbs::add_limbs_with_reduction(a.value.as_slice(), b.value.as_slice());
        let snippet = M31LimbsGadget::add_limbs_with_reduction();
        let mut inputs: Vec<usize> = Vec::new();
        inputs.push(a.variables[0]);
        inputs.push(a.variables[1]);
        inputs.push(a.variables[2]);
        inputs.push(a.variables[3]);
        inputs.push(b.variables[0]);
        inputs.push(b.variables[1]);
        inputs.push(b.variables[2]);
        inputs.push(b.variables[3]);
        match cs.insert_script(snippet, inputs) {
            Ok(_) => {},
            Err(e) => {
                proof {
                    assert(false);
                }
                return Err(e);
            },
        }
        let data = [sums[0], sums[1], sums[2], sums[3]];
        proof {
            assert(limb_ints(data@) =~= limb_ints(sums@));
        }
        let v = match crate::bvar::AllocVar::new_function_output(cs, data) {
            Ok(x) => x,
            Err(e) => {
                proof {
                    assert(false);
                }
                return Err(e);
            },
        };
        let v: M31LimbsVar = v;
        proof {
            lemma_mod_bound(
                a.limbs_value() + b.limbs_value(),
                M31_MODULUS as int,
            );
        }
        Ok(v)
    }

    /// Records the verifier that two CM31 limb operands are equal, half
    /// by half and limb by limb.
    pub fn equalverify(&self, cs: &mut ConstraintSystem, rhs: &CM31LimbsVar) -> (r: Result<
        (),
        Error,
    >)
        requires
            self.wf_in(old(cs)),
            rhs.wf_in(old(cs)),
            old(cs).wf(),
            self.real.value@ == rhs.real.value@,
            self.imag.value@ == rhs.imag.value@,
        ensures
            r is Ok <==> !old(cs).finalized,
            r is Err ==> *final(cs) == *old(cs),
            r is Ok ==> final(cs).wf() && final(cs).memory@ == old(cs).memory@
                && !final(cs).finalized,
    {
        self.real.equalverify(cs, &rhs.real)?;
        match self.imag.equalverify(cs, &rhs.imag) {
            Ok(_) => Ok(()),
            Err(e) => {
                proof {
                    assert(false);
                }
                Err(e)
            },
        }
    }

    /// Records the table-backed CM31 multiplication: three limb products
    /// and two subtractions, after the classic split of the cross terms
    /// through the product of the limb sums.
    pub fn mul(&self, cs: &mut ConstraintSystem, table: &TableVar, rhs: &CM31LimbsVar) -> (r:
        Result<CM31Var, Error>)
        requires
            self.wf_in(old(cs)),
            rhs.wf_in(old(cs)),
            table.wf_in(old(cs)),
            old(cs).wf(),
            self.canonical(),
            rhs.canonical(),
        ensures
            r is Ok <==> !old(cs).finalized && table.ref_ok(),
            r matches Ok(v) ==> {
                &&& v.real.value == msub(
                    mmul(self.real.limbs_value(), rhs.real.limbs_value()),
                    mmul(self.imag.limbs_value(), rhs.imag.limbs_value()),
                )
                &&& v.imag.value == msub(
                    msub(
                        mmul(
                            self.real.limbs_value() + self.imag.limbs_value(),
                            rhs.real.limbs_value() + rhs.imag.limbs_value(),
                        ),
                        mmul(self.real.limbs_value(), rhs.real.limbs_value()),
                    ),
                    mmul(self.imag.limbs_value(), rhs.imag.limbs_value()),
                )
                &&& v.wf_in(&*final(cs))
                &&& final(cs).wf()
                &&& final(cs).finalized == false
                &&& old(cs).memory@.len() <= final(cs).memory@.len()
                &&& forall|i: int|
                    0 <= i < old(cs).memory@.len() ==> #[trigger] final(cs).memory@[i]@ == old(
                        cs,
                    ).memory@[i]@
            },
    {
        if cs.finalized {
            return Err(Error::FinalizedMutation);
        }
        // the cross-term operands are reduced so their limbs stay bytes
        // and every partial product fits the quarter-square table
        let self_sum = Self::add_half(cs, &self.real, &self.imag)?;
        let rhs_sum = match Self::add_half(cs, &rhs.real, &rhs.imag) {
            Ok(x) => x,
            Err(e) => {
                proof {
                    assert(false);
                }
                return Err(e);
            },
        };
        proof {
            vstd::arithmetic::div_mod::lemma_mul_mod_noop_general(
                self.real.limbs_value() + self.imag.limbs_value(),
                rhs.real.limbs_value() + rhs.imag.limbs_value(),
                M31_MODULUS as int,
            );
        }
        let sum_product = match self_sum.mul(cs, table, &rhs_sum) {
            Ok(x) => x,
            Err(e) => {
                return Err(e);
            },
        };
        let real_product = match self.real.mul(cs, table, &rhs.real) {
            Ok(x) => x,
            Err(e) => {
                return Err(e);
            },
        };
        let imag_product = match self.imag.mul(cs, table, &rhs.imag) {
            Ok(x) => x,
            Err(e) => {
                return Err(e);
            },
        };
        let new_real = match real_product.sub(cs, &imag_product) {
            Ok(x) => x,
            Err(e) => {
                proof {
                    assert(false);
                }
                return Err(e);
            },
        };
        let diff = match sum_product.sub(cs, &real_product) {
            Ok(x) => x,
            Err(e) => {
                proof {
                    assert(false);
                }
                return Err(e);
            },
        };
        let new_imag = match diff.sub(cs, &imag_product) {
            Ok(x) => x,
            Err(e) => {
                proof {
                    assert(false);
                }
                return Err(e);
            },
        };
        Ok(CM31Var { real: new_real, imag: new_imag })
    }
}

/// The law behind the split of the cross terms: over reduced operands,
/// the difference of the direct products is the real component, and the
/// product of the limb sums less both direct products is the imaginary
/// component -- the composition computes exactly the CM31 product.
pub proof fn lemma_karatsuba_split(ar: int, ai: int, br: int, bi: int)
    requires
        0 <= ar < M31_MODULUS,
        0 <= ai < M31_MODULUS,
        0 <= br < M31_MODULUS,
        0 <= bi < M31_MODULUS,
    ensures
        msub(mmul(ar, br), mmul(ai, bi)) == cm31_mul_s((ar, ai), (br, bi)).0,
        msub(msub(mmul(ar + ai, br + bi), mmul(ar, br)), mmul(ai, bi)) == cm31_mul_s(
            (ar, ai),
            (br, bi),
        ).1,
{
    let m = M31_MODULUS as int;
    let x = (ar + ai) * (br + bi);
    let a = ar * br;
    let b = ai * bi;
    let c = ar * bi + ai * br;
    assert(x == a + b + c) by (nonlinear_arith)
        requires
            x == (ar + ai) * (br + bi),
            a == ar * br,
            b == ai * bi,
            c == ar * bi + ai * br,
    ;
    // the first peel: the sum product less the real product
    assert(msub(x % m, a % m) == (b + c) % m) by {
        lemma_sub_mod_noop(x, a, m);
        lemma_mod_multiples_vanish(1, (x % m) - (a % m), m);
        assert(m * 1 + ((x % m) - (a % m)) == m + (x % m) - (a % m));
    }
    // the second peel: less the imaginary product
    assert(msub((b + c) % m, b % m) == c % m) by {
        lemma_sub_mod_noop(b + c, b, m);
        lemma_mod_multiples_vanish(1, ((b + c) % m) - (b % m), m);
        assert(m * 1 + (((b + c) % m) - (b % m)) == m + ((b + c) % m) - (b % m));
    }
    // the cross sum reduces to the imaginary component
    assert(c % m == ((ar * bi) % m + (ai * br) % m) % m) by {
        lemma_add_mod_noop(ar * bi, ai * br, m);
    }
}

} // verus!
