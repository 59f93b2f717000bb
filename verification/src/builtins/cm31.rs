use vstd::prelude::*;
use crate::builtins::m31::M31Var;
use crate::builtins::table::utils::{
    cm31_add_s, cm31_int, cm31_inverse_s, cm31_mul_s, cm31_sub_s, inverse_cm31, is_cm31, madd,
    mmul, mul_cm31, M31_MODULUS,
};
use crate::bvar::{AllocVar, AllocationMode, BVar};
use crate::constraint_system::{ConstraintSystem, ElemV, Element};
use crate::errors::Error;

verus! {

/// A variable holding one CM31 element: the imaginary lane deepest, the
/// real lane above it.
pub struct CM31Var {
    pub imag: M31Var,
    pub real: M31Var,
}

impl CM31Var {
    /// The (real, imaginary) pair this variable mirrors.
    pub open spec fn cm31_value(&self) -> (u32, u32) {
        (self.real.value, self.imag.value)
    }
}

impl BVar for CM31Var {
    type Value = (u32, u32);

    open spec fn ids(&self) -> Seq<usize> {
        seq![self.imag.variable, self.real.variable]
    }

    open spec fn native(&self) -> (u32, u32) {
        (self.real.value, self.imag.value)
    }

    open spec fn wf_in(&self, cs: &ConstraintSystem) -> bool {
        &&& self.imag.wf_in(cs)
        &&& self.real.wf_in(cs)
    }

    open spec fn spec_length() -> nat {
        2
    }

    fn variables(&self) -> (r: Vec<usize>) {
        let mut v: Vec<usize> = Vec::new();
        v.push(self.imag.variable);
        v.push(self.real.variable);
        proof {
            assert(v@ =~= self.ids());
        }
        v
    }

    fn length() -> (r: usize) {
        2
    }

    proof fn ids_in_range(&self, cs: &ConstraintSystem) {
    }

    proof fn wf_monotone(&self, cs1: &ConstraintSystem, cs2: &ConstraintSystem) {
    }
}

impl AllocVar for CM31Var {
    open spec fn valid_value(data: (u32, u32)) -> bool {
        is_cm31(data)
    }

    open spec fn value_matches(a: (u32, u32), b: (u32, u32)) -> bool {
        a == b
    }

    fn new_variable(cs: &mut ConstraintSystem, data: (u32, u32), mode: AllocationMode) -> (r:
        Result<CM31Var, Error>) {
        let im_var = M31Var::new_variable(cs, data.1, mode)?;
        let re_var = match M31Var::new_variable(cs, data.0, mode) {
            Ok(v) => v,
            Err(e) => {
                proof {
                    assert(false);
                }
                return Err(e);
            },
        };
        let r = CM31Var { imag: im_var, real: re_var };
        proof {
            assert(im_var.variable == im_var.ids()[0]);
            assert(re_var.variable == re_var.ids()[0]);
            assert(im_var.variable == old(cs).memory@.len());
            assert(re_var.variable == old(cs).memory@.len() + 1);
            assert(CM31Var::value_matches(r.native(), data));
            assert(r.ids() =~= seq![r.imag.variable, r.real.variable]);
            assert(final(cs).trace@ =~= old(cs).trace@ + crate::bvar::alloc_entries(
                mode,
                old(cs).memory@.len() as int,
                2nat,
            ));
        }
        Ok(r)
    }
}

impl CM31Var {
    /// The native (real, imaginary) pair assigned to this variable.
    pub fn value(&self) -> (r: (u32, u32))
        ensures
            r == self.native(),
    {
        (self.real.value, self.imag.value)
    }

    /// Records the componentwise addition of two CM31 variables.
    pub fn add(&self, cs: &mut ConstraintSystem, rhs: &CM31Var) -> (r: Result<CM31Var, Error>)
        requires
            self.wf_in(old(cs)),
            rhs.wf_in(old(cs)),
            old(cs).wf(),
        ensures
            r is Ok <==> !old(cs).finalized,
            r matches Ok(v) ==> {
                &&& cm31_int(v.cm31_value()) == cm31_add_s(
                    cm31_int(self.cm31_value()),
                    cm31_int(rhs.cm31_value()),
                )
                &&& v.wf_in(&*final(cs))
                &&& final(cs).wf()
                &&& final(cs).finalized == false
                &&& old(cs).memory@.len() <= final(cs).memory@.len()
                &&& forall|i: int|
                    0 <= i < old(cs).memory@.len() ==> #[trigger] final(cs).memory@[i]@ == old(
                        cs,
                    ).memory@[i]@
            },
    {
        let im_var = self.imag.add(cs, &rhs.imag)?;
        let re_var = match self.real.add(cs, &rhs.real) {
            Ok(v) => v,
            Err(e) => {
                proof {
                    assert(false);
                }
                return Err(e);
            },
        };
        Ok(CM31Var { imag: im_var, real: re_var })
    }

    /// Records the componentwise subtraction of two CM31 variables.
    pub fn sub(&self, cs: &mut ConstraintSystem, rhs: &CM31Var) -> (r: Result<CM31Var, Error>)
        requires
            self.wf_in(old(cs)),
            rhs.wf_in(old(cs)),
            old(cs).wf(),
        ensures
            r is Ok <==> !old(cs).finalized,
            r matches Ok(v) ==> {
                &&& cm31_int(v.cm31_value()) == cm31_sub_s(
                    cm31_int(self.cm31_value()),
                    cm31_int(rhs.cm31_value()),
                )
                &&& v.wf_in(&*final(cs))
                &&& final(cs).wf()
                &&& final(cs).finalized == false
                &&& old(cs).memory@.len() <= final(cs).memory@.len()
                &&& forall|i: int|
                    0 <= i < old(cs).memory@.len() ==> #[trigger] final(cs).memory@[i]@ == old(
                        cs,
                    ).memory@[i]@
            },
    {
        let im_var = self.imag.sub(cs, &rhs.imag)?;
        let re_var = match self.real.sub(cs, &rhs.real) {
            Ok(v) => v,
            Err(e) => {
                proof {
                    assert(false);
                }
                return Err(e);
            },
        };
        Ok(CM31Var { imag: im_var, real: re_var })
    }

    /// Records the negation of a CM31 variable, lane by lane.
    pub fn neg(&self, cs: &mut ConstraintSystem) -> (r: Result<CM31Var, Error>)
        requires
            self.wf_in(old(cs)),
            old(cs).wf(),
        ensures
            r is Ok <==> !old(cs).finalized,
            r matches Ok(v) ==> {
                &&& cm31_int(v.cm31_value()) == cm31_sub_s((0, 0), cm31_int(self.cm31_value()))
                &&& v.wf_in(&*final(cs))
                &&& final(cs).wf()
                &&& final(cs).finalized == false
                &&& old(cs).memory@.len() <= final(cs).memory@.len()
                &&& forall|i: int|
                    0 <= i < old(cs).memory@.len() ==> #[trigger] final(cs).memory@[i]@ == old(
                        cs,
                    ).memory@[i]@
            },
    {
        let im_var = self.imag.neg(cs)?;
        let re_var = match self.real.neg(cs) {
            Ok(v) => v,
            Err(e) => {
                proof {
                    assert(false);
                }
                return Err(e);
            },
        };
        Ok(CM31Var { imag: im_var, real: re_var })
    }

    /// Records the CM31 multiplication, folded from four lane products.
    pub fn mul(&self, cs: &mut ConstraintSystem, rhs: &CM31Var) -> (r: Result<CM31Var, Error>)
        requires
            self.wf_in(old(cs)),
            rhs.wf_in(old(cs)),
            old(cs).wf(),
        ensures
            r is Ok <==> !old(cs).finalized,
            r matches Ok(v) ==> {
                &&& cm31_int(v.cm31_value()) == cm31_mul_s(
                    cm31_int(self.cm31_value()),
                    cm31_int(rhs.cm31_value()),
                )
                &&& v.wf_in(&*final(cs))
                &&& final(cs).wf()
                &&& final(cs).finalized == false
                &&& old(cs).memory@.len() <= final(cs).memory@.len()
                &&& forall|i: int|
                    0 <= i < old(cs).memory@.len() ==> #[trigger] final(cs).memory@[i]@ == old(
                        cs,
                    ).memory@[i]@
            },
    {
        let rr = self.real.mul(cs, &rhs.real)?;
        let ii = match self.imag.mul(cs, &rhs.imag) {
            Ok(v) => v,
            Err(e) => {
                proof {
                    assert(false);
                }
                return Err(e);
            },
        };
        let re = match rr.sub(cs, &ii) {
            Ok(v) => v,
            Err(e) => {
                proof {
                    assert(false);
                }
                return Err(e);
            },
        };
        let ri = match self.real.mul(cs, &rhs.imag) {
            Ok(v) => v,
            Err(e) => {
                proof {
                    assert(false);
                }
                return Err(e);
            },
        };
        let ir = match self.imag.mul(cs, &rhs.real) {
            Ok(v) => v,
            Err(e) => {
                proof {
                    assert(false);
                }
                return Err(e);
            },
        };
        let im = match ri.add(cs, &ir) {
            Ok(v) => v,
            Err(e) => {
                proof {
                    assert(false);
                }
                return Err(e);
            },
        };
        Ok(CM31Var { imag: im, real: re })
    }

    /// Records the verifier that this variable is the field's one.
    pub fn is_one(&self, cs: &mut ConstraintSystem) -> (r: Result<(), Error>)
        requires
            self.wf_in(old(cs)),
            old(cs).wf(),
            self.real.value == 1,
            self.imag.value == 0,
        ensures
            r is Ok <==> !old(cs).finalized,
            r is Ok ==> final(cs).wf() && final(cs).memory@ == old(cs).memory@
                && !final(cs).finalized,
    {
        self.real.is_one(cs)?;
        match self.imag.is_zero(cs) {
            Ok(_) => Ok(()),
            Err(e) => {
                proof {
                    assert(false);
                }
                Err(e)
            },
        }
    }

    /// Records the multiplication of this variable by the imaginary
    /// unit: the new real lane is the negated imaginary lane, and the
    /// new imaginary lane shares the old real lane's slot.
    pub fn shift_by_i(&self, cs: &mut ConstraintSystem) -> (r: Result<CM31Var, Error>)
        requires
            self.wf_in(old(cs)),
            old(cs).wf(),
        ensures
            r is Ok <==> !old(cs).finalized,
            r is Err ==> *final(cs) == *old(cs),
            r matches Ok(v) ==> {
                &&& cm31_int(v.cm31_value()) == cm31_mul_s(cm31_int(self.cm31_value()), (0int, 1int))
                &&& v.wf_in(&*final(cs))
                &&& final(cs).wf()
                &&& final(cs).finalized == false
                &&& old(cs).memory@.len() <= final(cs).memory@.len()
                &&& forall|i: int|
                    0 <= i < old(cs).memory@.len() ==> #[trigger] final(cs).memory@[i]@ == old(
                        cs,
                    ).memory@[i]@
            },
    {
        let new_real = self.imag.neg(cs)?;
        let v = CM31Var {
            real: new_real,
            imag: M31Var { variable: self.real.variable, value: self.real.value },
        };
        proof {
            let m = M31_MODULUS as int;
            vstd::arithmetic::div_mod::lemma_small_mod(self.real.value as nat, m as nat);
            vstd::arithmetic::div_mod::lemma_small_mod(self.imag.value as nat, m as nat);
            vstd::arithmetic::div_mod::lemma_small_mod(0nat, m as nat);
        }
        Ok(v)
    }

    /// The inverse by hint: the native reciprocal is allocated as
    /// untrusted advice and the program checks the product against one.
    /// The zero element has no inverse and is refused.
    pub fn inverse_without_table(&self, cs: &mut ConstraintSystem) -> (r: Result<CM31Var, Error>)
        requires
            self.wf_in(old(cs)),
            old(cs).wf(),
        ensures
            r matches Ok(v) ==> {
                &&& cm31_int(v.cm31_value()) == cm31_inverse_s(cm31_int(self.cm31_value()))
                &&& cm31_mul_s(cm31_int(self.cm31_value()), cm31_int(v.cm31_value())) == (1int, 0int)
                &&& v.wf_in(&*final(cs))
                &&& final(cs).wf()
                &&& final(cs).finalized == false
                &&& old(cs).memory@.len() <= final(cs).memory@.len()
                &&& forall|i: int|
                    0 <= i < old(cs).memory@.len() ==> #[trigger] final(cs).memory@[i]@ == old(
                        cs,
                    ).memory@[i]@
            },
            r is Err ==> old(cs).finalized || cm31_mul_s(
                cm31_int(self.cm31_value()),
                cm31_inverse_s(cm31_int(self.cm31_value())),
            ) != (1int, 0int),
    {
        let val = (self.real.value, self.imag.value);
        let inv = inverse_cm31(val);
        let prod = mul_cm31(val, inv);
        if !(prod.0 == 1 && prod.1 == 0) {
            return Err(Error::Overflow);
        }
        let inv_var = CM31Var::new_hint(cs, inv)?;
        let check = match self.mul(cs, &inv_var) {
            Ok(v) => v,
            Err(e) => {
                proof {
                    assert(false);
                }
                return Err(e);
            },
        };
        match check.is_one(cs) {
            Ok(_) => {},
            Err(e) => {
                proof {
                    assert(false);
                }
                return Err(e);
            },
        }
        Ok(inv_var)
    }
}

} // verus!
verus! {

impl CM31Var {
    /// The inverse through the table multiplier: the squared norm is
    /// inverted in the base field, and both lanes are scaled by it.
    pub fn inverse(
        &self,
        cs: &mut ConstraintSystem,
        table: &crate::builtins::table::TableVar,
    ) -> (r: Result<CM31Var, Error>)
        requires
            self.wf_in(old(cs)),
            table.wf_in(old(cs)),
            old(cs).wf(),
        ensures
            r is Ok <==> !old(cs).finalized && table.ref_ok() && (madd(
                mmul(self.real.value as int, self.real.value as int),
                mmul(self.imag.value as int, self.imag.value as int),
            ) * crate::builtins::table::utils::m31_pow_spec(
                madd(
                    mmul(self.real.value as int, self.real.value as int),
                    mmul(self.imag.value as int, self.imag.value as int),
                ),
                (M31_MODULUS - 2) as nat,
            )) % (M31_MODULUS as int) == 1,
            r matches Ok(v) ==> {
                &&& cm31_int(v.cm31_value()) == cm31_inverse_s(cm31_int(self.cm31_value()))
                &&& cm31_mul_s(cm31_int(self.cm31_value()), cm31_int(v.cm31_value())) == (
                    1int,
                    0int,
                )
                &&& v.wf_in(&*final(cs))
                &&& final(cs).wf()
                &&& final(cs).finalized == false
            },
    {
        if cs.finalized {
            return Err(Error::FinalizedMutation);
        }
        let real_squared = match self.real.mul_by_table(cs, table, &self.real) {
            Ok(v) => v,
            Err(e) => {
                return Err(e);
            },
        };
        let imag_squared = match self.imag.mul_by_table(cs, table, &self.imag) {
            Ok(v) => v,
            Err(e) => {
                return Err(e);
            },
        };
        let denom = match real_squared.add(cs, &imag_squared) {
            Ok(v) => v,
            Err(e) => {
                proof {
                    assert(false);
                }
                return Err(e);
            },
        };
        let denom_inverse = match denom.inverse(cs, table) {
            Ok(v) => v,
            Err(e) => {
                return Err(e);
            },
        };
        let re_var = match self.real.mul_by_table(cs, table, &denom_inverse) {
            Ok(v) => v,
            Err(e) => {
                return Err(e);
            },
        };
        let neg_imag = match self.imag.neg(cs) {
            Ok(v) => v,
            Err(e) => {
                proof {
                    assert(false);
                }
                return Err(e);
            },
        };
        let im_var = match neg_imag.mul_by_table(cs, table, &denom_inverse) {
            Ok(v) => v,
            Err(e) => {
                return Err(e);
            },
        };
        proof {
            lemma_neg_mul(self.imag.value as int, denom_inverse.value as int);
            crate::builtins::table::utils::lemma_cm31_inverse_product(
                self.real.value as int,
                self.imag.value as int,
                denom_inverse.value as int,
            );
        }
        Ok(CM31Var { imag: im_var, real: re_var })
    }
}

} // verus!
verus! {

/// Scaling a negated lane agrees with negating the scaled lane.
proof fn lemma_neg_mul(b: int, d: int)
    requires
        0 <= b < M31_MODULUS,
        0 <= d < M31_MODULUS,
    ensures
        crate::builtins::table::utils::mmul(
            crate::builtins::table::utils::msub(0, b),
            d,
        ) == crate::builtins::table::utils::msub(
            0,
            crate::builtins::table::utils::mmul(b, d),
        ),
{
    let m = M31_MODULUS as int;
    vstd::arithmetic::div_mod::lemma_mul_mod_noop_general(m - b, d, m);
    assert((m - b) * d == m * d + (-(b * d))) by (nonlinear_arith);
    vstd::arithmetic::div_mod::lemma_mod_multiples_vanish(d, -(b * d), m);
    vstd::arithmetic::div_mod::lemma_sub_mod_noop(0, b * d, m);
    vstd::arithmetic::div_mod::lemma_mod_multiples_vanish(1, -((b * d) % m), m);
    assert(m * 1 + (-((b * d) % m)) == m - (b * d) % m);
    assert((m + 0 - b) % m == (m - b) % m);
    vstd::arithmetic::div_mod::lemma_mod_multiples_vanish(1, -b, m);
    assert(m * 1 + (-b) == m - b);
    vstd::arithmetic::div_mod::lemma_sub_mod_noop(0, b, m);
    vstd::arithmetic::div_mod::lemma_mul_mod_noop_general(-b, d, m);
    assert((-b) * d == -(b * d)) by (nonlinear_arith);
}

impl crate::bvar::StoredVar for CM31Var {
    open spec fn elems_of(v: (u32, u32)) -> Seq<crate::constraint_system::ElemV> {
        seq![
            crate::constraint_system::ElemV::Num(v.1 as int),
            crate::constraint_system::ElemV::Num(v.0 as int),
        ]
    }

    open spec fn elems_ok(e: Seq<crate::constraint_system::ElemV>) -> bool {
        e.len() == 2 && (match (e[0], e[1]) {
            (
                crate::constraint_system::ElemV::Num(ni),
                crate::constraint_system::ElemV::Num(nr),
            ) => 0 <= ni < M31_MODULUS && 0 <= nr < M31_MODULUS,
            _ => false,
        })
    }

    proof fn wf_elems(&self, cs: &ConstraintSystem) {
        assert(self.ids().map_values(|id: usize| cs.memory@[id as int]@) =~= Self::elems_of(
            self.native(),
        ));
    }

    proof fn elems_of_ok(v: (u32, u32)) {
    }

    proof fn elems_of_matches(a: (u32, u32), b: (u32, u32)) {
    }

    fn from_elems(e: &Vec<crate::constraint_system::Element>) -> (r: Option<(u32, u32)>) {
        let ghost row = e@.map_values(|x: crate::constraint_system::Element| x@);
        if e.len() == 2 {
            match (&e[0], &e[1]) {
                (
                    crate::constraint_system::Element::Num(xi),
                    crate::constraint_system::Element::Num(xr),
                ) => {
                    let xi = *xi;
                    let xr = *xr;
                    if xi >= 0 && xi < 0x7fff_ffffi32 && xr >= 0 && xr < 0x7fff_ffffi32 {
                        let v: (u32, u32) = (xr as u32, xi as u32);
                        proof {
                            assert(Self::elems_of(v) =~= row);
                        }
                        return Some(v);
                    }
                },
                _ => {},
            }
        }
        proof {
            assert(!Self::elems_ok(row));
        }
        None
    }
}

} // verus!
