use vstd::prelude::*;
use crate::builtins::cm31::CM31Var;
use crate::builtins::m31::M31Var;
use crate::builtins::table::utils::{
    cm31_add_s, cm31_int, cm31_mul_s, cm31_sub_s, inverse_qm31, is_qm31, mul_qm31, qm31_int,
    qm31_inverse_s, qm31_mul_s,
};
use crate::bvar::{AllocVar, AllocationMode, BVar};
use crate::constraint_system::{ConstraintSystem, Element};
use crate::errors::Error;
use crate::script::{emit_op, emit_push_int, OP_ENDIF, OP_IF, OP_ROLL};

verus! {

/// A variable holding one QM31 element as two CM31 components, the
/// second component deepest.
pub struct QM31Var {
    pub first: CM31Var,
    pub second: CM31Var,
}

impl QM31Var {
    /// The pair of (real, imaginary) pairs this variable mirrors.
    pub open spec fn qm31_value(&self) -> ((u32, u32), (u32, u32)) {
        (self.first.cm31_value(), self.second.cm31_value())
    }
}

/// The i-basis shift: each CM31 component is multiplied by the
/// imaginary unit.
pub open spec fn qm31_shift_i_s(v: ((int, int), (int, int))) -> ((int, int), (int, int)) {
    (cm31_mul_s(v.0, (0int, 1int)), cm31_mul_s(v.1, (0int, 1int)))
}

/// The j-basis shift: the second component moves first, and the old
/// first component is doubled and folded with its own lanes.
pub open spec fn qm31_shift_j_s(v: ((int, int), (int, int))) -> ((int, int), (int, int)) {
    (
        v.1,
        (
            crate::builtins::table::utils::madd(
                crate::builtins::table::utils::madd(v.0.0, v.0.0),
                v.0.1,
            ),
            crate::builtins::table::utils::msub(
                crate::builtins::table::utils::madd(v.0.1, v.0.1),
                v.0.0,
            ),
        ),
    )
}

/// The bytes of the conditional swap snippet: under the popped bit, the
/// deeper operand's four lanes are rolled over the other.
pub open spec fn qm31_swap_bytes() -> Seq<u8> {
    seq![OP_IF] + crate::script::push_int_bytes(7) + seq![OP_ROLL]
        + crate::script::push_int_bytes(7) + seq![OP_ROLL] + crate::script::push_int_bytes(7)
        + seq![OP_ROLL] + crate::script::push_int_bytes(7) + seq![OP_ROLL] + seq![OP_ENDIF]
}

impl BVar for QM31Var {
    type Value = ((u32, u32), (u32, u32));

    open spec fn ids(&self) -> Seq<usize> {
        seq![
            self.second.imag.variable,
            self.second.real.variable,
            self.first.imag.variable,
            self.first.real.variable,
        ]
    }

    open spec fn native(&self) -> ((u32, u32), (u32, u32)) {
        self.qm31_value()
    }

    open spec fn wf_in(&self, cs: &ConstraintSystem) -> bool {
        &&& self.first.wf_in(cs)
        &&& self.second.wf_in(cs)
    }

    open spec fn spec_length() -> nat {
        4
    }

    fn variables(&self) -> (r: Vec<usize>) {
        let mut v: Vec<usize> = Vec::new();
        v.push(self.second.imag.variable);
        v.push(self.second.real.variable);
        v.push(self.first.imag.variable);
        v.push(self.first.real.variable);
        proof {
            assert(v@ =~= self.ids());
        }
        v
    }

    fn length() -> (r: usize) {
        4
    }

    proof fn ids_in_range(&self, cs: &ConstraintSystem) {
    }

    proof fn wf_monotone(&self, cs1: &ConstraintSystem, cs2: &ConstraintSystem) {
    }
}

impl AllocVar for QM31Var {
    open spec fn valid_value(data: ((u32, u32), (u32, u32))) -> bool {
        is_qm31(data)
    }

    open spec fn value_matches(a: ((u32, u32), (u32, u32)), b: ((u32, u32), (u32, u32))) -> bool {
        a == b
    }

    fn new_variable(cs: &mut ConstraintSystem, data: ((u32, u32), (u32, u32)), mode: AllocationMode)
        -> (r: Result<QM31Var, Error>) {
        let second = CM31Var::new_variable(cs, data.1, mode)?;
        let first = match CM31Var::new_variable(cs, data.0, mode) {
            Ok(v) => v,
            Err(e) => {
                proof {
                    assert(false);
                }
                return Err(e);
            },
        };
        let r = QM31Var { first, second };
        proof {
            assert(QM31Var::value_matches(r.native(), data));
            assert(r.ids() =~= seq![
                r.second.imag.variable,
                r.second.real.variable,
                r.first.imag.variable,
                r.first.real.variable,
            ]);
            assert(final(cs).trace@ =~= old(cs).trace@ + crate::bvar::alloc_entries(
                mode,
                old(cs).memory@.len() as int,
                4nat,
            ));
        }
        Ok(r)
    }
}

impl QM31Var {
    /// The native value assigned to this variable.
    pub fn value(&self) -> (r: ((u32, u32), (u32, u32)))
        ensures
            r == self.native(),
    {
        ((self.first.real.value, self.first.imag.value), (self.second.real.value, self.second.imag.value))
    }

    /// Records the componentwise addition of two QM31 variables.
    pub fn add(&self, cs: &mut ConstraintSystem, rhs: &QM31Var) -> (r: Result<QM31Var, Error>)
        requires
            self.wf_in(old(cs)),
            rhs.wf_in(old(cs)),
            old(cs).wf(),
        ensures
            r is Ok <==> !old(cs).finalized,
            r matches Ok(v) ==> {
                &&& cm31_int(v.first.cm31_value()) == cm31_add_s(
                    cm31_int(self.first.cm31_value()),
                    cm31_int(rhs.first.cm31_value()),
                )
                &&& cm31_int(v.second.cm31_value()) == cm31_add_s(
                    cm31_int(self.second.cm31_value()),
                    cm31_int(rhs.second.cm31_value()),
                )
                &&& v.wf_in(&*final(cs))
                &&& final(cs).wf()
                &&& final(cs).finalized == false
                &&& old(cs).memory@.len() <= final(cs).memory@.len()
                &&& forall|i: int|
                    0 <= i < old(cs).memory@.len() ==> #[trigger] final(cs).memory@[i]@ == old(
                        cs,
                    ).memory@[i]@
            },
    {
        let second = self.second.add(cs, &rhs.second)?;
        let first = match self.first.add(cs, &rhs.first) {
            Ok(v) => v,
            Err(e) => {
                proof {
                    assert(false);
                }
                return Err(e);
            },
        };
        Ok(QM31Var { first, second })
    }

    /// Records the componentwise subtraction of two QM31 variables.
    pub fn sub(&self, cs: &mut ConstraintSystem, rhs: &QM31Var) -> (r: Result<QM31Var, Error>)
        requires
            self.wf_in(old(cs)),
            rhs.wf_in(old(cs)),
            old(cs).wf(),
        ensures
            r is Ok <==> !old(cs).finalized,
            r matches Ok(v) ==> {
                &&& cm31_int(v.first.cm31_value()) == cm31_sub_s(
                    cm31_int(self.first.cm31_value()),
                    cm31_int(rhs.first.cm31_value()),
                )
                &&& cm31_int(v.second.cm31_value()) == cm31_sub_s(
                    cm31_int(self.second.cm31_value()),
                    cm31_int(rhs.second.cm31_value()),
                )
                &&& v.wf_in(&*final(cs))
                &&& final(cs).wf()
                &&& final(cs).finalized == false
                &&& old(cs).memory@.len() <= final(cs).memory@.len()
                &&& forall|i: int|
                    0 <= i < old(cs).memory@.len() ==> #[trigger] final(cs).memory@[i]@ == old(
                        cs,
                    ).memory@[i]@
            },
    {
        let second = self.second.sub(cs, &rhs.second)?;
        let first = match self.first.sub(cs, &rhs.first) {
            Ok(v) => v,
            Err(e) => {
                proof {
                    assert(false);
                }
                return Err(e);
            },
        };
        Ok(QM31Var { first, second })
    }

    /// Records the negation of a QM31 variable.
    pub fn neg(&self, cs: &mut ConstraintSystem) -> (r: Result<QM31Var, Error>)
        requires
            self.wf_in(old(cs)),
            old(cs).wf(),
        ensures
            r is Ok <==> !old(cs).finalized,
            r matches Ok(v) ==> {
                &&& cm31_int(v.first.cm31_value()) == cm31_sub_s(
                    (0, 0),
                    cm31_int(self.first.cm31_value()),
                )
                &&& cm31_int(v.second.cm31_value()) == cm31_sub_s(
                    (0, 0),
                    cm31_int(self.second.cm31_value()),
                )
                &&& v.wf_in(&*final(cs))
                &&& final(cs).wf()
                &&& final(cs).finalized == false
                &&& old(cs).memory@.len() <= final(cs).memory@.len()
                &&& forall|i: int|
                    0 <= i < old(cs).memory@.len() ==> #[trigger] final(cs).memory@[i]@ == old(
                        cs,
                    ).memory@[i]@
            },
    {
        let first = self.first.neg(cs)?;
        let second = match self.second.neg(cs) {
            Ok(v) => v,
            Err(e) => {
                proof {
                    assert(false);
                }
                return Err(e);
            },
        };
        Ok(QM31Var { first, second })
    }

    /// Records the QM31 multiplication, folded from CM31 products: the
    /// first component gains the second components' product shifted by
    /// the extension basis, the cross terms form the second component.
    pub fn mul(&self, cs: &mut ConstraintSystem, rhs: &QM31Var) -> (r: Result<QM31Var, Error>)
        requires
            self.wf_in(old(cs)),
            rhs.wf_in(old(cs)),
            old(cs).wf(),
        ensures
            r is Ok <==> !old(cs).finalized,
            r matches Ok(v) ==> {
                &&& qm31_int(v.qm31_value()) == qm31_mul_s(
                    qm31_int(self.qm31_value()),
                    qm31_int(rhs.qm31_value()),
                )
                &&& v.wf_in(&*final(cs))
                &&& final(cs).wf()
                &&& final(cs).finalized == false
                &&& old(cs).memory@.len() <= final(cs).memory@.len()
                &&& forall|i: int|
                    0 <= i < old(cs).memory@.len() ==> #[trigger] final(cs).memory@[i]@ == old(
                        cs,
                    ).memory@[i]@
            },
    {
        let real_product = self.first.mul(cs, &rhs.first)?;
        let imag_product = match self.second.mul(cs, &rhs.second) {
            Ok(v) => v,
            Err(e) => {
                proof {
                    assert(false);
                }
                return Err(e);
            },
        };
        // multiply the second components' product by (2 + i)
        let shifted = match Self::mul_by_2_plus_i(cs, &imag_product) {
            Ok(v) => v,
            Err(e) => {
                proof {
                    assert(false);
                }
                return Err(e);
            },
        };
        let first = match real_product.add(cs, &shifted) {
            Ok(v) => v,
            Err(e) => {
                proof {
                    assert(false);
                }
                return Err(e);
            },
        };
        let cross1 = match self.first.mul(cs, &rhs.second) {
            Ok(v) => v,
            Err(e) => {
                proof {
                    assert(false);
                }
                return Err(e);
            },
        };
        let cross2 = match self.second.mul(cs, &rhs.first) {
            Ok(v) => v,
            Err(e) => {
                proof {
                    assert(false);
                }
                return Err(e);
            },
        };
        let second = match cross1.add(cs, &cross2) {
            Ok(v) => v,
            Err(e) => {
                proof {
                    assert(false);
                }
                return Err(e);
            },
        };
        Ok(QM31Var { first, second })
    }

    /// Records the product of a CM31 variable with the constant 2 + i.
    fn mul_by_2_plus_i(cs: &mut ConstraintSystem, v: &CM31Var) -> (r: Result<CM31Var, Error>)
        requires
            v.wf_in(old(cs)),
            old(cs).wf(),
        ensures
            r is Ok <==> !old(cs).finalized,
            r matches Ok(w) ==> {
                &&& cm31_int(w.cm31_value()) == cm31_mul_s(cm31_int(v.cm31_value()), (2, 1))
                &&& w.wf_in(&*final(cs))
                &&& final(cs).wf()
                &&& final(cs).finalized == false
                &&& old(cs).memory@.len() <= final(cs).memory@.len()
                &&& forall|i: int|
                    0 <= i < old(cs).memory@.len() ==> #[trigger] final(cs).memory@[i]@ == old(
                        cs,
                    ).memory@[i]@
            },
    {
        // (a + bi)(2 + i) = (2a - b) + (a + 2b) i
        let a2 = v.real.add(cs, &v.real)?;
        let re_var = match a2.sub(cs, &v.imag) {
            Ok(x) => x,
            Err(e) => {
                proof {
                    assert(false);
                }
                return Err(e);
            },
        };
        let b2 = match v.imag.add(cs, &v.imag) {
            Ok(x) => x,
            Err(e) => {
                proof {
                    assert(false);
                }
                return Err(e);
            },
        };
        let im_var = match b2.add(cs, &v.real) {
            Ok(x) => x,
            Err(e) => {
                proof {
                    assert(false);
                }
                return Err(e);
            },
        };
        let w = CM31Var { imag: im_var, real: re_var };
        proof {
            lemma_mul_by_2_plus_i(v.real.value as int, v.imag.value as int);
        }
        Ok(w)
    }

    /// Records the verifier that this variable is the field's one.
    pub fn is_one(&self, cs: &mut ConstraintSystem) -> (r: Result<(), Error>)
        requires
            self.wf_in(old(cs)),
            old(cs).wf(),
            self.first.real.value == 1,
            self.first.imag.value == 0,
            self.second.real.value == 0,
            self.second.imag.value == 0,
        ensures
            r is Ok <==> !old(cs).finalized,
            r is Ok ==> final(cs).wf() && final(cs).memory@ == old(cs).memory@
                && !final(cs).finalized,
    {
        self.first.is_one(cs)?;
        match self.second.real.is_zero(cs) {
            Ok(_) => {},
            Err(e) => {
                proof {
                    assert(false);
                }
                return Err(e);
            },
        }
        match self.second.imag.is_zero(cs) {
            Ok(_) => Ok(()),
            Err(e) => {
                proof {
                    assert(false);
                }
                Err(e)
            },
        }
    }

    /// The inverse by hint: the native reciprocal is allocated as
    /// untrusted advice and the program checks the product against one.
    /// The zero element has no inverse and is refused.
    pub fn inverse_without_table(&self, cs: &mut ConstraintSystem) -> (r: Result<QM31Var, Error>)
        requires
            self.wf_in(old(cs)),
            old(cs).wf(),
        ensures
            r matches Ok(v) ==> {
                &&& qm31_int(v.qm31_value()) == qm31_inverse_s(qm31_int(self.qm31_value()))
                &&& qm31_mul_s(qm31_int(v.qm31_value()), qm31_int(self.qm31_value())) == (
                    (1int, 0int),
                    (0int, 0int),
                )
                &&& v.wf_in(&*final(cs))
                &&& final(cs).wf()
                &&& final(cs).finalized == false
            },
            r is Err ==> old(cs).finalized || qm31_mul_s(
                qm31_inverse_s(qm31_int(self.qm31_value())),
                qm31_int(self.qm31_value()),
            ) != ((1int, 0int), (0int, 0int)),
    {
        let val = self.value();
        let inv = inverse_qm31(val);
        let prod = mul_qm31(inv, val);
        if !(prod.0.0 == 1 && prod.0.1 == 0 && prod.1.0 == 0 && prod.1.1 == 0) {
            return Err(Error::Overflow);
        }
        let inv_var = QM31Var::new_hint(cs, inv)?;
        let check = match inv_var.mul(cs, self) {
            Ok(v) => v,
            Err(e) => {
                proof {
                    assert(false);
                }
                return Err(e);
            },
        };
        match check.is_one(cs) {
            Ok(_) => {},
            Err(e) => {
                proof {
                    assert(false);
                }
                return Err(e);
            },
        }
        Ok(inv_var)
    }

    /// Records the addition of one to the shallowest field lane.
    pub fn add1(&self, cs: &mut ConstraintSystem) -> (r: Result<QM31Var, Error>)
        requires
            self.wf_in(old(cs)),
            old(cs).wf(),
        ensures
            r is Ok <==> !old(cs).finalized,
            r is Err ==> *final(cs) == *old(cs),
            r matches Ok(v) ==> {
                &&& v.first.real.value == crate::builtins::table::utils::madd(
                    self.first.real.value as int,
                    1,
                )
                &&& v.first.imag.value == self.first.imag.value
                &&& v.second.real.value == self.second.real.value
                &&& v.second.imag.value == self.second.imag.value
                &&& v.wf_in(&*final(cs))
                &&& final(cs).wf()
                &&& final(cs).finalized == false
                &&& old(cs).memory@.len() <= final(cs).memory@.len()
                &&& forall|i: int|
                    0 <= i < old(cs).memory@.len() ==> #[trigger] final(cs).memory@[i]@ == old(
                        cs,
                    ).memory@[i]@
            },
    {
        if cs.finalized {
            return Err(Error::FinalizedMutation);
        }
        let fr = crate::builtins::table::utils::add_m31(self.first.real.value, 1);
        let res = (
            (fr, self.first.imag.value),
            (self.second.real.value, self.second.imag.value),
        );
        let mut snippet: Vec<u8> = Vec::new();
        emit_push_int(&mut snippet, 1);
        let madd_s = crate::builtins::table::m31::m31_add_snippet();
        crate::script::emit_all(&mut snippet, &madd_s);
        let mut inputs: Vec<usize> = Vec::new();
        inputs.push(self.second.imag.variable);
        inputs.push(self.second.real.variable);
        inputs.push(self.first.imag.variable);
        inputs.push(self.first.real.variable);
        match cs.insert_script(snippet, inputs) {
            Ok(_) => {},
            Err(e) => {
                proof {
                    assert(false);
                }
                return Err(e);
            },
        }
        let v = QM31Var::new_function_output(cs, res)?;
        Ok(v)
    }

    /// Records the subtraction of one from the shallowest field lane.
    pub fn sub1(&self, cs: &mut ConstraintSystem) -> (r: Result<QM31Var, Error>)
        requires
            self.wf_in(old(cs)),
            old(cs).wf(),
        ensures
            r is Ok <==> !old(cs).finalized,
            r is Err ==> *final(cs) == *old(cs),
            r matches Ok(v) ==> {
                &&& v.first.real.value == crate::builtins::table::utils::msub(
                    self.first.real.value as int,
                    1,
                )
                &&& v.first.imag.value == self.first.imag.value
                &&& v.second.real.value == self.second.real.value
                &&& v.second.imag.value == self.second.imag.value
                &&& v.wf_in(&*final(cs))
                &&& final(cs).wf()
                &&& final(cs).finalized == false
                &&& old(cs).memory@.len() <= final(cs).memory@.len()
                &&& forall|i: int|
                    0 <= i < old(cs).memory@.len() ==> #[trigger] final(cs).memory@[i]@ == old(
                        cs,
                    ).memory@[i]@
            },
    {
        if cs.finalized {
            return Err(Error::FinalizedMutation);
        }
        let fr = crate::builtins::table::utils::sub_m31(self.first.real.value, 1);
        let res = (
            (fr, self.first.imag.value),
            (self.second.real.value, self.second.imag.value),
        );
        let mut snippet: Vec<u8> = Vec::new();
        emit_push_int(&mut snippet, 1);
        let msub_s = crate::builtins::table::m31::m31_sub_snippet();
        crate::script::emit_all(&mut snippet, &msub_s);
        let mut inputs: Vec<usize> = Vec::new();
        inputs.push(self.second.imag.variable);
        inputs.push(self.second.real.variable);
        inputs.push(self.first.imag.variable);
        inputs.push(self.first.real.variable);
        match cs.insert_script(snippet, inputs) {
            Ok(_) => {},
            Err(e) => {
                proof {
                    assert(false);
                }
                return Err(e);
            },
        }
        let v = QM31Var::new_function_output(cs, res)?;
        Ok(v)
    }

    /// Records the i-basis shift: both CM31 components are multiplied by
    /// the imaginary unit.
    pub fn shift_by_i(&self, cs: &mut ConstraintSystem) -> (r: Result<QM31Var, Error>)
        requires
            self.wf_in(old(cs)),
            old(cs).wf(),
        ensures
            r is Ok <==> !old(cs).finalized,
            r is Err ==> *final(cs) == *old(cs),
            r matches Ok(v) ==> {
                &&& qm31_int(v.qm31_value()) == qm31_shift_i_s(qm31_int(self.qm31_value()))
                &&& v.wf_in(&*final(cs))
                &&& final(cs).wf()
                &&& final(cs).finalized == false
                &&& old(cs).memory@.len() <= final(cs).memory@.len()
                &&& forall|i: int|
                    0 <= i < old(cs).memory@.len() ==> #[trigger] final(cs).memory@[i]@ == old(
                        cs,
                    ).memory@[i]@
            },
    {
        let first = self.first.shift_by_i(cs)?;
        let second = match self.second.shift_by_i(cs) {
            Ok(v) => v,
            Err(e) => {
                proof {
                    assert(false);
                }
                return Err(e);
            },
        };
        Ok(QM31Var { first, second })
    }

    /// Records the j-basis shift: the second component takes the first
    /// slot, and the old first component is doubled and folded with its
    /// own lanes into the new second component.
    pub fn shift_by_j(&self, cs: &mut ConstraintSystem) -> (r: Result<QM31Var, Error>)
        requires
            self.wf_in(old(cs)),
            old(cs).wf(),
        ensures
            r is Ok <==> !old(cs).finalized,
            r is Err ==> *final(cs) == *old(cs),
            r matches Ok(v) ==> {
                &&& qm31_int(v.qm31_value()) == qm31_shift_j_s(qm31_int(self.qm31_value()))
                &&& v.wf_in(&*final(cs))
                &&& final(cs).wf()
                &&& final(cs).finalized == false
                &&& old(cs).memory@.len() <= final(cs).memory@.len()
                &&& forall|i: int|
                    0 <= i < old(cs).memory@.len() ==> #[trigger] final(cs).memory@[i]@ == old(
                        cs,
                    ).memory@[i]@
            },
    {
        if cs.finalized {
            return Err(Error::FinalizedMutation);
        }
        let doubled_real = match self.first.real.add(cs, &self.first.real) {
            Ok(v) => v,
            Err(e) => {
                proof {
                    assert(false);
                }
                return Err(e);
            },
        };
        let new_real = match doubled_real.add(cs, &self.first.imag) {
            Ok(v) => v,
            Err(e) => {
                proof {
                    assert(false);
                }
                return Err(e);
            },
        };
        let doubled_imag = match self.first.imag.add(cs, &self.first.imag) {
            Ok(v) => v,
            Err(e) => {
                proof {
                    assert(false);
                }
                return Err(e);
            },
        };
        let new_imag = match doubled_imag.sub(cs, &self.first.real) {
            Ok(v) => v,
            Err(e) => {
                proof {
                    assert(false);
                }
                return Err(e);
            },
        };
        let first = CM31Var {
            real: M31Var { variable: self.second.real.variable, value: self.second.real.value },
            imag: M31Var { variable: self.second.imag.variable, value: self.second.imag.value },
        };
        Ok(QM31Var { first, second: CM31Var { real: new_real, imag: new_imag } })
    }

    /// Records the ij-basis shift: the i-basis shift followed by the
    /// j-basis shift.
    pub fn shift_by_ij(&self, cs: &mut ConstraintSystem) -> (r: Result<QM31Var, Error>)
        requires
            self.wf_in(old(cs)),
            old(cs).wf(),
        ensures
            r is Ok <==> !old(cs).finalized,
            r matches Ok(v) ==> {
                &&& qm31_int(v.qm31_value()) == qm31_shift_j_s(
                    qm31_shift_i_s(qm31_int(self.qm31_value())),
                )
                &&& v.wf_in(&*final(cs))
                &&& final(cs).wf()
                &&& final(cs).finalized == false
                &&& old(cs).memory@.len() <= final(cs).memory@.len()
                &&& forall|i: int|
                    0 <= i < old(cs).memory@.len() ==> #[trigger] final(cs).memory@[i]@ == old(
                        cs,
                    ).memory@[i]@
            },
    {
        let shifted = self.shift_by_i(cs)?;
        let v = match shifted.shift_by_j(cs) {
            Ok(v) => v,
            Err(e) => {
                proof {
                    assert(false);
                }
                return Err(e);
            },
        };
        Ok(v)
    }

    /// Records the conditional swap of two QM31 variables on a bit lane:
    /// when the bit is one the operands trade places.
    pub fn conditional_swap(&self, cs: &mut ConstraintSystem, rhs: &QM31Var, bit: &M31Var) -> (r:
        Result<(QM31Var, QM31Var), Error>)
        requires
            self.wf_in(old(cs)),
            rhs.wf_in(old(cs)),
            bit.wf_in(old(cs)),
            old(cs).wf(),
            bit.value == 0 || bit.value == 1,
        ensures
            r is Ok <==> !old(cs).finalized,
            r matches Ok(p) ==> {
                &&& (bit.value == 0 ==> p.0.qm31_value() == self.qm31_value()
                    && p.1.qm31_value() == rhs.qm31_value())
                &&& (bit.value == 1 ==> p.0.qm31_value() == rhs.qm31_value()
                    && p.1.qm31_value() == self.qm31_value())
                &&& crate::bvar::recorded_op_bytes(
                    *old(cs),
                    *final(cs),
                    qm31_swap_bytes(),
                    seq![
                        self.second.imag.variable,
                        self.second.real.variable,
                        self.first.imag.variable,
                        self.first.real.variable,
                        rhs.second.imag.variable,
                        rhs.second.real.variable,
                        rhs.first.imag.variable,
                        rhs.first.real.variable,
                        bit.variable,
                    ],
                    p.0.ids() + p.1.ids(),
                )
                &&& p.0.wf_in(&*final(cs))
                &&& p.1.wf_in(&*final(cs))
                &&& final(cs).wf()
                &&& final(cs).finalized == false
            },
    {
        if cs.finalized {
            return Err(Error::FinalizedMutation);
        }
        let first_val = self.value();
        let second_val = rhs.value();
        let (out0, out1) = if bit.value == 0 {
            (first_val, second_val)
        } else {
            (second_val, first_val)
        };
        let mut snippet: Vec<u8> = Vec::new();
        emit_op(&mut snippet, OP_IF);
        let mut d: u32 = 0;
        while d < 4
            invariant
                d <= 4,
                d == 0 ==> snippet@ == seq![OP_IF],
                d == 1 ==> snippet@ == seq![OP_IF] + crate::script::push_int_bytes(7) + seq![
                    OP_ROLL,
                ],
                d == 2 ==> snippet@ == seq![OP_IF] + crate::script::push_int_bytes(7) + seq![
                    OP_ROLL,
                ] + crate::script::push_int_bytes(7) + seq![OP_ROLL],
                d == 3 ==> snippet@ == seq![OP_IF] + crate::script::push_int_bytes(7) + seq![
                    OP_ROLL,
                ] + crate::script::push_int_bytes(7) + seq![OP_ROLL]
                    + crate::script::push_int_bytes(7) + seq![OP_ROLL],
                d == 4 ==> snippet@ == seq![OP_IF] + crate::script::push_int_bytes(7) + seq![
                    OP_ROLL,
                ] + crate::script::push_int_bytes(7) + seq![OP_ROLL]
                    + crate::script::push_int_bytes(7) + seq![OP_ROLL]
                    + crate::script::push_int_bytes(7) + seq![OP_ROLL],
            decreases 4 - d,
        {
            emit_push_int(&mut snippet, 7);
            emit_op(&mut snippet, OP_ROLL);
            proof {
                assert(snippet@ =~= snippet@);
            }
            d = d + 1;
        }
        emit_op(&mut snippet, OP_ENDIF);
        proof {
            assert(snippet@ =~= qm31_swap_bytes());
        }
        let mut inputs: Vec<usize> = Vec::new();
        inputs.push(self.second.imag.variable);
        inputs.push(self.second.real.variable);
        inputs.push(self.first.imag.variable);
        inputs.push(self.first.real.variable);
        inputs.push(rhs.second.imag.variable);
        inputs.push(rhs.second.real.variable);
        inputs.push(rhs.first.imag.variable);
        inputs.push(rhs.first.real.variable);
        inputs.push(bit.variable);
        let ghost inputs_view = inputs@;
        match cs.insert_script(snippet, inputs) {
            Ok(_) => {},
            Err(e) => {
                proof {
                    assert(false);
                }
                return Err(e);
            },
        }
        let ghost t1 = *cs;
        let v0 = match QM31Var::new_function_output(cs, out0) {
            Ok(v) => v,
            Err(e) => {
                proof {
                    assert(false);
                }
                return Err(e);
            },
        };
        let ghost t2 = *cs;
        let v1 = match QM31Var::new_function_output(cs, out1) {
            Ok(v) => v,
            Err(e) => {
                proof {
                    assert(false);
                }
                return Err(e);
            },
        };
        proof {
            let base = old(cs).trace@.len() as int;
            let outs = v0.ids() + v1.ids();
            assert(inputs_view =~= seq![
                self.second.imag.variable,
                self.second.real.variable,
                self.first.imag.variable,
                self.first.real.variable,
                rhs.second.imag.variable,
                rhs.second.real.variable,
                rhs.first.imag.variable,
                rhs.first.real.variable,
                bit.variable,
            ]);
            assert(final(cs).trace@.subrange(0, base) =~= old(cs).trace@);
            assert forall|k: int| 0 <= k < 8 implies #[trigger] outs[k] == old(
                cs,
            ).memory@.len() + k by {
                if k < 4 {
                    assert(outs[k] == v0.ids()[k]);
                } else {
                    assert(outs[k] == v1.ids()[k - 4]);
                }
            }
            assert forall|k: int|
                0 <= k < 8 implies #[trigger] final(cs).trace@[base + 1 + k]
                == crate::constraint_system::TraceEntry::DeclareOutput(outs[k]) by {
                if k < 4 {
                    assert(final(cs).trace@[base + 1 + k] == t2.trace@[base + 1 + k]);
                    assert(t2.trace@[base + 1 + k] == crate::bvar::alloc_entries(
                        AllocationMode::FunctionOutput,
                        t1.memory@.len() as int,
                        4nat,
                    )[k]);
                } else {
                    assert(final(cs).trace@[base + 1 + k] == crate::bvar::alloc_entries(
                        AllocationMode::FunctionOutput,
                        t2.memory@.len() as int,
                        4nat,
                    )[k - 4]);
                }
            }
        }
        Ok((v0, v1))
    }
}

/// The closed form of multiplying a CM31 pair by the constant 2 + i.
proof fn lemma_mul_by_2_plus_i(a: int, b: int)
    requires
        0 <= a < crate::builtins::table::utils::M31_MODULUS,
        0 <= b < crate::builtins::table::utils::M31_MODULUS,
    ensures
        cm31_mul_s((a, b), (2, 1)) == (
            crate::builtins::table::utils::msub(
                crate::builtins::table::utils::madd(a, a),
                b,
            ),
            crate::builtins::table::utils::madd(crate::builtins::table::utils::madd(b, b), a),
        ),
{
    let m = crate::builtins::table::utils::M31_MODULUS as int;
    vstd::arithmetic::div_mod::lemma_small_mod(2nat, m as nat);
    vstd::arithmetic::div_mod::lemma_small_mod(1nat, m as nat);
    assert(a * 2 == a + a) by (nonlinear_arith);
    assert(b * 1 == b) by (nonlinear_arith);
    assert(a * 1 == a) by (nonlinear_arith);
    assert(b * 2 == b + b) by (nonlinear_arith);
    vstd::arithmetic::div_mod::lemma_small_mod(a as nat, m as nat);
    vstd::arithmetic::div_mod::lemma_small_mod(b as nat, m as nat);
    vstd::arithmetic::div_mod::lemma_add_mod_noop(a, a, m);
    vstd::arithmetic::div_mod::lemma_add_mod_noop(b, b, m);
    vstd::arithmetic::div_mod::lemma_add_mod_noop((b + b) % m, a, m);
}

} // verus!
verus! {

use crate::builtins::cm31_limbs::{lemma_karatsuba_split, CM31LimbsVar};
use crate::builtins::table::TableVar;

/// Records one table-backed CM31 product: both operands are decomposed
/// into limbs and handed to the limb multiplier.
fn cm31_mul_by_table(
    cs: &mut ConstraintSystem,
    table: &TableVar,
    a: &CM31Var,
    b: &CM31Var,
) -> (r: Result<CM31Var, Error>)
    requires
        a.wf_in(old(cs)),
        b.wf_in(old(cs)),
        table.wf_in(old(cs)),
        old(cs).wf(),
    ensures
        r is Ok <==> !old(cs).finalized && table.ref_ok(),
        r matches Ok(v) ==> {
            &&& cm31_int(v.cm31_value()) == crate::builtins::table::utils::cm31_mul_s(
                cm31_int(a.cm31_value()),
                cm31_int(b.cm31_value()),
            )
            &&& v.wf_in(&*final(cs))
            &&& final(cs).wf()
            &&& final(cs).finalized == false
            &&& old(cs).memory@.len() <= final(cs).memory@.len()
            &&& forall|i: int|
                0 <= i < old(cs).memory@.len() ==> #[trigger] final(cs).memory@[i]@ == old(
                    cs,
                ).memory@[i]@
        },
{
    if cs.finalized {
        return Err(Error::FinalizedMutation);
    }
    let a_limbs = match CM31LimbsVar::from_cm31(cs, a) {
        Ok(x) => x,
        Err(e) => {
            proof {
                assert(false);
            }
            return Err(e);
        },
    };
    let b_limbs = match CM31LimbsVar::from_cm31(cs, b) {
        Ok(x) => x,
        Err(e) => {
            proof {
                assert(false);
            }
            return Err(e);
        },
    };
    let v = match a_limbs.mul(cs, table, &b_limbs) {
        Ok(x) => x,
        Err(e) => {
            return Err(e);
        },
    };
    proof {
        lemma_karatsuba_split(
            a.real.value as int,
            a.imag.value as int,
            b.real.value as int,
            b.imag.value as int,
        );
    }
    Ok(v)
}

impl QM31Var {
    /// Records the table-backed QM31 multiplication, folded from three
    /// table-backed CM31 products and the extension-basis shift.
    pub fn mul_by_table(&self, cs: &mut ConstraintSystem, table: &TableVar, rhs: &QM31Var) -> (r:
        Result<QM31Var, Error>)
        requires
            self.wf_in(old(cs)),
            rhs.wf_in(old(cs)),
            table.wf_in(old(cs)),
            old(cs).wf(),
        ensures
            r is Ok <==> !old(cs).finalized && table.ref_ok(),
            r matches Ok(v) ==> {
                &&& qm31_int(v.qm31_value()) == qm31_mul_s(
                    qm31_int(self.qm31_value()),
                    qm31_int(rhs.qm31_value()),
                )
                &&& v.wf_in(&*final(cs))
                &&& final(cs).wf()
                &&& final(cs).finalized == false
                &&& old(cs).memory@.len() <= final(cs).memory@.len()
                &&& forall|i: int|
                    0 <= i < old(cs).memory@.len() ==> #[trigger] final(cs).memory@[i]@ == old(
                        cs,
                    ).memory@[i]@
            },
    {
        if cs.finalized {
            return Err(Error::FinalizedMutation);
        }
        let real_product = match cm31_mul_by_table(cs, table, &self.first, &rhs.first) {
            Ok(v) => v,
            Err(e) => {
                return Err(e);
            },
        };
        let imag_product = match cm31_mul_by_table(cs, table, &self.second, &rhs.second) {
            Ok(v) => v,
            Err(e) => {
                return Err(e);
            },
        };
        let shifted = match Self::mul_by_2_plus_i(cs, &imag_product) {
            Ok(v) => v,
            Err(e) => {
                proof {
                    assert(false);
                }
                return Err(e);
            },
        };
        let first = match real_product.add(cs, &shifted) {
            Ok(v) => v,
            Err(e) => {
                proof {
                    assert(false);
                }
                return Err(e);
            },
        };
        let cross1 = match cm31_mul_by_table(cs, table, &self.first, &rhs.second) {
            Ok(v) => v,
            Err(e) => {
                return Err(e);
            },
        };
        let cross2 = match cm31_mul_by_table(cs, table, &self.second, &rhs.first) {
            Ok(v) => v,
            Err(e) => {
                return Err(e);
            },
        };
        let second = match cross1.add(cs, &cross2) {
            Ok(v) => v,
            Err(e) => {
                proof {
                    assert(false);
                }
                return Err(e);
            },
        };
        Ok(QM31Var { first, second })
    }

    /// The inverse by hint through the table multiplier: the native
    /// reciprocal is allocated as untrusted advice and the emitted
    /// program checks the product against one.
    pub fn inverse(&self, cs: &mut ConstraintSystem, table: &TableVar) -> (r: Result<
        QM31Var,
        Error,
    >)
        requires
            self.wf_in(old(cs)),
            table.wf_in(old(cs)),
            old(cs).wf(),
        ensures
            r is Ok <==> !old(cs).finalized && table.ref_ok() && qm31_mul_s(
                qm31_inverse_s(qm31_int(self.qm31_value())),
                qm31_int(self.qm31_value()),
            ) == ((1int, 0int), (0int, 0int)),
            r matches Ok(v) ==> {
                &&& qm31_int(v.qm31_value()) == qm31_inverse_s(qm31_int(self.qm31_value()))
                &&& qm31_mul_s(qm31_int(v.qm31_value()), qm31_int(self.qm31_value())) == (
                    (1int, 0int),
                    (0int, 0int),
                )
                &&& v.wf_in(&*final(cs))
                &&& final(cs).wf()
                &&& final(cs).finalized == false
            },
    {
        if cs.finalized {
            return Err(Error::FinalizedMutation);
        }
        let val = self.value();
        let inv = inverse_qm31(val);
        let prod = mul_qm31(inv, val);
        if !(prod.0.0 == 1 && prod.0.1 == 0 && prod.1.0 == 0 && prod.1.1 == 0) {
            return Err(Error::Overflow);
        }
        let inv_var = match QM31Var::new_hint(cs, inv) {
            Ok(v) => v,
            Err(e) => {
                proof {
                    assert(false);
                }
                return Err(e);
            },
        };
        let check = match inv_var.mul_by_table(cs, table, self) {
            Ok(v) => v,
            Err(e) => {
                return Err(e);
            },
        };
        match check.is_one(cs) {
            Ok(_) => {},
            Err(e) => {
                proof {
                    assert(false);
                }
                return Err(e);
            },
        }
        Ok(inv_var)
    }
}


impl crate::bvar::StoredVar for QM31Var {
    open spec fn elems_of(v: ((u32, u32), (u32, u32))) -> Seq<crate::constraint_system::ElemV> {
        seq![
            crate::constraint_system::ElemV::Num(v.1.1 as int),
            crate::constraint_system::ElemV::Num(v.1.0 as int),
            crate::constraint_system::ElemV::Num(v.0.1 as int),
            crate::constraint_system::ElemV::Num(v.0.0 as int),
        ]
    }

    open spec fn elems_ok(e: Seq<crate::constraint_system::ElemV>) -> bool {
        e.len() == 4 && (forall|k: int|
            0 <= k < 4 ==> (match #[trigger] e[k] {
                crate::constraint_system::ElemV::Num(n) => 0 <= n
                    < crate::builtins::table::utils::M31_MODULUS,
                crate::constraint_system::ElemV::Str(_) => false,
            }))
    }

    proof fn wf_elems(&self, cs: &ConstraintSystem) {
        assert(self.ids().map_values(|id: usize| cs.memory@[id as int]@) =~= Self::elems_of(
            self.native(),
        ));
    }

    proof fn elems_of_ok(v: ((u32, u32), (u32, u32))) {
        assert forall|k: int| 0 <= k < 4 implies (match #[trigger] Self::elems_of(v)[k] {
            crate::constraint_system::ElemV::Num(n) => 0 <= n
                < crate::builtins::table::utils::M31_MODULUS,
            crate::constraint_system::ElemV::Str(_) => false,
        }) by {
            assert(Self::elems_of(v)[0] == crate::constraint_system::ElemV::Num(v.1.1 as int));
            assert(Self::elems_of(v)[1] == crate::constraint_system::ElemV::Num(v.1.0 as int));
            assert(Self::elems_of(v)[2] == crate::constraint_system::ElemV::Num(v.0.1 as int));
            assert(Self::elems_of(v)[3] == crate::constraint_system::ElemV::Num(v.0.0 as int));
        }
    }

    proof fn elems_of_matches(a: ((u32, u32), (u32, u32)), b: ((u32, u32), (u32, u32))) {
    }

    fn from_elems(e: &Vec<crate::constraint_system::Element>) -> (r: Option<
        ((u32, u32), (u32, u32)),
    >) {
        let ghost row = e@.map_values(|x: crate::constraint_system::Element| x@);
        if e.len() == 4 {
            match (&e[0], &e[1], &e[2], &e[3]) {
                (
                    crate::constraint_system::Element::Num(x0),
                    crate::constraint_system::Element::Num(x1),
                    crate::constraint_system::Element::Num(x2),
                    crate::constraint_system::Element::Num(x3),
                ) => {
                    let x0 = *x0;
                    let x1 = *x1;
                    let x2 = *x2;
                    let x3 = *x3;
                    if x0 >= 0 && x0 < 0x7fff_ffffi32 && x1 >= 0 && x1 < 0x7fff_ffffi32 && x2 >= 0
                        && x2 < 0x7fff_ffffi32 && x3 >= 0 && x3 < 0x7fff_ffffi32 {
                        let v: ((u32, u32), (u32, u32)) = (
                            (x3 as u32, x2 as u32),
                            (x1 as u32, x0 as u32),
                        );
                        proof {
                            assert(Self::elems_of(v) =~= row);
                            assert(Self::elems_ok(row));
                        }
                        return Some(v);
                    }
                },
                _ => {},
            }
        }
        proof {
            if Self::elems_ok(row) {
                assert(match row[0] {
                    crate::constraint_system::ElemV::Num(n) => 0 <= n
                        < crate::builtins::table::utils::M31_MODULUS,
                    crate::constraint_system::ElemV::Str(_) => false,
                });
                assert(match row[1] {
                    crate::constraint_system::ElemV::Num(n) => 0 <= n
                        < crate::builtins::table::utils::M31_MODULUS,
                    crate::constraint_system::ElemV::Str(_) => false,
                });
                assert(match row[2] {
                    crate::constraint_system::ElemV::Num(n) => 0 <= n
                        < crate::builtins::table::utils::M31_MODULUS,
                    crate::constraint_system::ElemV::Str(_) => false,
                });
                assert(match row[3] {
                    crate::constraint_system::ElemV::Num(n) => 0 <= n
                        < crate::builtins::table::utils::M31_MODULUS,
                    crate::constraint_system::ElemV::Str(_) => false,
                });
                assert(false);
            }
        }
        None
    }
}

} // verus!
