use vstd::prelude::*;
use crate::builtins::table::m31::{m31_add_snippet, m31_mul_snippet, m31_sub_snippet};
use crate::builtins::table::utils::{add_m31, is_m31, m31_pow_spec, mul_m31, pow2147483645, sub_m31, M31_MODULUS};
use crate::bvar::{lemma_recorded_single, recorded_op, AllocVar, AllocationMode, BVar};
use crate::constraint_system::{ConstraintSystem, ElemV, Element, TraceEntry};
use crate::errors::Error;
use crate::script::{emit_op, emit_push_int, OP_0NOTEQUAL, OP_EQUALVERIFY, OP_IF, OP_ENDIF, OP_SUB, OP_SWAP};

verus! {

/// A variable holding one reduced M31 field element.
pub struct M31Var {
    pub variable: usize,
    pub value: u32,
}

impl BVar for M31Var {
    type Value = u32;

    open spec fn ids(&self) -> Seq<usize> {
        seq![self.variable]
    }

    open spec fn native(&self) -> u32 {
        self.value
    }

    open spec fn wf_in(&self, cs: &ConstraintSystem) -> bool {
        &&& self.variable < cs.memory@.len()
        &&& cs.memory@[self.variable as int]@ == ElemV::Num(self.value as int)
        &&& is_m31(self.value)
    }

    open spec fn spec_length() -> nat {
        1
    }

    fn variables(&self) -> (r: Vec<usize>) {
        let mut v: Vec<usize> = Vec::new();
        v.push(self.variable);
        proof {
            assert(v@ =~= self.ids());
        }
        v
    }

    fn length() -> (r: usize) {
        1
    }

    proof fn ids_in_range(&self, cs: &ConstraintSystem) {
    }

    proof fn wf_monotone(&self, cs1: &ConstraintSystem, cs2: &ConstraintSystem) {
    }
}

impl AllocVar for M31Var {
    open spec fn valid_value(data: u32) -> bool {
        is_m31(data)
    }

    open spec fn value_matches(a: u32, b: u32) -> bool {
        a == b
    }

    fn new_variable(cs: &mut ConstraintSystem, data: u32, mode: AllocationMode) -> (r: Result<
        M31Var,
        Error,
    >) {
        proof {
            assert(M31Var::valid_value(data));
            assert(is_m31(data));
        }
        let variable = cs.allocate(Element::Num(data as i32), mode)?;
        proof {
            assert((data as i32) as int == data as int);
            assert(final(cs).memory@[old(cs).memory@.len() as int] == Element::Num(data as i32));
            assert(final(cs).trace@ =~= old(cs).trace@ + crate::bvar::alloc_entries(
                mode,
                old(cs).memory@.len() as int,
                1nat,
            ));
        }
        let r = M31Var { variable, value: data };
        proof {
            assert(M31Var::value_matches(r.native(), data));
        }
        Ok(r)
    }
}

impl M31Var {
    /// The native value assigned to this variable.
    pub fn value(&self) -> (r: u32)
        ensures
            r == self.native(),
    {
        self.value
    }

    /// Records the field addition of two variables and returns the sum.
    pub fn add(&self, cs: &mut ConstraintSystem, rhs: &M31Var) -> (r: Result<M31Var, Error>)
        requires
            self.wf_in(old(cs)),
            rhs.wf_in(old(cs)),
            old(cs).wf(),
        ensures
            r is Ok <==> !old(cs).finalized,
            r is Err ==> *final(cs) == *old(cs),
            r matches Ok(v) ==> {
                &&& v.value == (self.value + rhs.value) % (M31_MODULUS as int)
                &&& v.wf_in(&*final(cs))
                &&& final(cs).wf()
                &&& recorded_op(
                    *old(cs),
                    *final(cs),
                    seq![self.variable, rhs.variable],
                    seq![v.variable],
                )
            },
    {
        let res = add_m31(self.value, rhs.value);
        let mut inputs: Vec<usize> = Vec::new();
        inputs.push(self.variable);
        inputs.push(rhs.variable);
        let ghost inputs_view = inputs@;
        proof {
            assert(inputs_view =~= seq![self.variable, rhs.variable]);
        }
        cs.insert_script(m31_add_snippet(), inputs)?;
        let ghost mid = *cs;
        let v = M31Var::new_function_output(cs, res)?;
        proof {
            assert(final(cs).trace@[old(cs).trace@.len() as int] == mid.trace@[old(
                cs,
            ).trace@.len() as int]);
            assert(mid.trace@[old(cs).trace@.len() as int] == mid.trace@.last());
            assert(v.variable == v.ids()[0]);
            assert(v.variable == old(cs).memory@.len());
            assert(final(cs).trace@.subrange(0, old(cs).trace@.len() as int) =~= old(cs).trace@);
            assert(final(cs).trace@[old(cs).trace@.len() as int + 1] == TraceEntry::DeclareOutput(
                v.variable,
            ));
            lemma_recorded_single(*old(cs), *final(cs), inputs_view, v.variable);
        }
        Ok(v)
    }

    /// Records the field subtraction of two variables.
    pub fn sub(&self, cs: &mut ConstraintSystem, rhs: &M31Var) -> (r: Result<M31Var, Error>)
        requires
            self.wf_in(old(cs)),
            rhs.wf_in(old(cs)),
            old(cs).wf(),
        ensures
            r is Ok <==> !old(cs).finalized,
            r is Err ==> *final(cs) == *old(cs),
            r matches Ok(v) ==> {
                &&& v.value == (M31_MODULUS as int + self.value - rhs.value) % (M31_MODULUS as int)
                &&& v.wf_in(&*final(cs))
                &&& final(cs).wf()
                &&& recorded_op(
                    *old(cs),
                    *final(cs),
                    seq![self.variable, rhs.variable],
                    seq![v.variable],
                )
            },
    {
        let res = sub_m31(self.value, rhs.value);
        let mut inputs: Vec<usize> = Vec::new();
        inputs.push(self.variable);
        inputs.push(rhs.variable);
        let ghost inputs_view = inputs@;
        proof {
            assert(inputs_view =~= seq![self.variable, rhs.variable]);
        }
        cs.insert_script(m31_sub_snippet(), inputs)?;
        let ghost mid = *cs;
        let v = M31Var::new_function_output(cs, res)?;
        proof {
            assert(final(cs).trace@[old(cs).trace@.len() as int] == mid.trace@[old(
                cs,
            ).trace@.len() as int]);
            assert(mid.trace@[old(cs).trace@.len() as int] == mid.trace@.last());
            assert(v.variable == v.ids()[0]);
            assert(v.variable == old(cs).memory@.len());
            assert(final(cs).trace@.subrange(0, old(cs).trace@.len() as int) =~= old(cs).trace@);
            assert(final(cs).trace@[old(cs).trace@.len() as int + 1] == TraceEntry::DeclareOutput(
                v.variable,
            ));
            lemma_recorded_single(*old(cs), *final(cs), inputs_view, v.variable);
        }
        Ok(v)
    }

    /// Records the field multiplication of two variables, without the
    /// lookup table.
    pub fn mul(&self, cs: &mut ConstraintSystem, rhs: &M31Var) -> (r: Result<M31Var, Error>)
        requires
            self.wf_in(old(cs)),
            rhs.wf_in(old(cs)),
            old(cs).wf(),
        ensures
            r is Ok <==> !old(cs).finalized,
            r is Err ==> *final(cs) == *old(cs),
            r matches Ok(v) ==> {
                &&& v.value == (self.value * rhs.value) % (M31_MODULUS as int)
                &&& v.wf_in(&*final(cs))
                &&& final(cs).wf()
                &&& recorded_op(
                    *old(cs),
                    *final(cs),
                    seq![self.variable, rhs.variable],
                    seq![v.variable],
                )
            },
    {
        let res = mul_m31(self.value, rhs.value);
        let mut inputs: Vec<usize> = Vec::new();
        inputs.push(self.variable);
        inputs.push(rhs.variable);
        let ghost inputs_view = inputs@;
        proof {
            assert(inputs_view =~= seq![self.variable, rhs.variable]);
        }
        cs.insert_script(m31_mul_snippet(), inputs)?;
        let ghost mid = *cs;
        let v = M31Var::new_function_output(cs, res)?;
        proof {
            assert(final(cs).trace@[old(cs).trace@.len() as int] == mid.trace@[old(
                cs,
            ).trace@.len() as int]);
            assert(mid.trace@[old(cs).trace@.len() as int] == mid.trace@.last());
            assert(v.variable == v.ids()[0]);
            assert(v.variable == old(cs).memory@.len());
            assert(final(cs).trace@.subrange(0, old(cs).trace@.len() as int) =~= old(cs).trace@);
            assert(final(cs).trace@[old(cs).trace@.len() as int + 1] == TraceEntry::DeclareOutput(
                v.variable,
            ));
            lemma_recorded_single(*old(cs), *final(cs), inputs_view, v.variable);
        }
        Ok(v)
    }

    /// Records the field negation: zero stays zero, anything else is
    /// subtracted from the modulus.
    pub fn neg(&self, cs: &mut ConstraintSystem) -> (r: Result<M31Var, Error>)
        requires
            self.wf_in(old(cs)),
            old(cs).wf(),
        ensures
            r is Ok <==> !old(cs).finalized,
            r is Err ==> *final(cs) == *old(cs),
            r matches Ok(v) ==> {
                &&& v.value == (M31_MODULUS as int + 0 - self.value) % (M31_MODULUS as int)
                &&& v.wf_in(&*final(cs))
                &&& final(cs).wf()
                &&& recorded_op(*old(cs), *final(cs), seq![self.variable], seq![v.variable])
            },
    {
        let res = sub_m31(0, self.value);
        let mut snippet: Vec<u8> = Vec::new();
        emit_op(&mut snippet, crate::script::OP_DUP);
        emit_op(&mut snippet, OP_0NOTEQUAL);
        emit_op(&mut snippet, OP_IF);
        emit_push_int(&mut snippet, M31_MODULUS as i64);
        emit_op(&mut snippet, OP_SWAP);
        emit_op(&mut snippet, OP_SUB);
        emit_op(&mut snippet, OP_ENDIF);
        let mut inputs: Vec<usize> = Vec::new();
        inputs.push(self.variable);
        let ghost inputs_view = inputs@;
        proof {
            assert(inputs_view =~= seq![self.variable]);
        }
        cs.insert_script(snippet, inputs)?;
        let ghost mid = *cs;
        let v = M31Var::new_function_output(cs, res)?;
        proof {
            assert(final(cs).trace@[old(cs).trace@.len() as int] == mid.trace@[old(
                cs,
            ).trace@.len() as int]);
            assert(mid.trace@[old(cs).trace@.len() as int] == mid.trace@.last());
            assert(v.variable == v.ids()[0]);
            assert(v.variable == old(cs).memory@.len());
            assert(final(cs).trace@.subrange(0, old(cs).trace@.len() as int) =~= old(cs).trace@);
            assert(final(cs).trace@[old(cs).trace@.len() as int + 1] == TraceEntry::DeclareOutput(
                v.variable,
            ));
            lemma_recorded_single(*old(cs), *final(cs), inputs_view, v.variable);
        }
        Ok(v)
    }

    /// Records the verifier that fails the program unless this variable
    /// is the field's zero.
    pub fn is_zero(&self, cs: &mut ConstraintSystem) -> (r: Result<(), Error>)
        requires
            self.wf_in(old(cs)),
            old(cs).wf(),
            self.value == 0,
        ensures
            r is Ok <==> !old(cs).finalized,
            r is Err ==> *final(cs) == *old(cs),
            r is Ok ==> {
                &&& final(cs).wf()
                &&& final(cs).memory@ == old(cs).memory@
                &&& final(cs).finalized == false
                &&& final(cs).trace@.len() == old(cs).trace@.len() + 1
                &&& final(cs).trace@.subrange(0, old(cs).trace@.len() as int) == old(cs).trace@
            },
    {
        let mut snippet: Vec<u8> = Vec::new();
        emit_push_int(&mut snippet, 0);
        emit_op(&mut snippet, OP_EQUALVERIFY);
        let mut inputs: Vec<usize> = Vec::new();
        inputs.push(self.variable);
        cs.insert_script(snippet, inputs)?;
        proof {
            assert(final(cs).trace@.subrange(0, old(cs).trace@.len() as int) =~= old(cs).trace@);
        }
        Ok(())
    }

    /// Records the verifier that fails the program unless this variable
    /// is the field's one.
    pub fn is_one(&self, cs: &mut ConstraintSystem) -> (r: Result<(), Error>)
        requires
            self.wf_in(old(cs)),
            old(cs).wf(),
            self.value == 1,
        ensures
            r is Ok <==> !old(cs).finalized,
            r is Err ==> *final(cs) == *old(cs),
            r is Ok ==> {
                &&& final(cs).wf()
                &&& final(cs).memory@ == old(cs).memory@
                &&& final(cs).finalized == false
                &&& final(cs).trace@.len() == old(cs).trace@.len() + 1
                &&& final(cs).trace@.subrange(0, old(cs).trace@.len() as int) == old(cs).trace@
            },
    {
        let mut snippet: Vec<u8> = Vec::new();
        emit_push_int(&mut snippet, 1);
        emit_op(&mut snippet, OP_EQUALVERIFY);
        let mut inputs: Vec<usize> = Vec::new();
        inputs.push(self.variable);
        cs.insert_script(snippet, inputs)?;
        proof {
            assert(final(cs).trace@.subrange(0, old(cs).trace@.len() as int) =~= old(cs).trace@);
        }
        Ok(())
    }

    /// Records the verifier that two variables hold equal elements.
    pub fn equalverify(&self, cs: &mut ConstraintSystem, rhs: &M31Var) -> (r: Result<(), Error>)
        requires
            self.wf_in(old(cs)),
            rhs.wf_in(old(cs)),
            old(cs).wf(),
            self.value == rhs.value,
        ensures
            r is Ok <==> !old(cs).finalized,
            r is Err ==> *final(cs) == *old(cs),
            r is Ok ==> {
                &&& final(cs).wf()
                &&& final(cs).memory@ == old(cs).memory@
                &&& final(cs).finalized == false
                &&& final(cs).trace@.len() == old(cs).trace@.len() + 1
                &&& final(cs).trace@.subrange(0, old(cs).trace@.len() as int) == old(cs).trace@
            },
    {
        let mut snippet: Vec<u8> = Vec::new();
        emit_op(&mut snippet, OP_EQUALVERIFY);
        let mut inputs: Vec<usize> = Vec::new();
        inputs.push(self.variable);
        inputs.push(rhs.variable);
        cs.insert_script(snippet, inputs)?;
        proof {
            assert(final(cs).trace@.subrange(0, old(cs).trace@.len() as int) =~= old(cs).trace@);
        }
        Ok(())
    }

    /// The inverse by hint: the chain result is allocated as untrusted
    /// advice and the emitted program checks the product against one.
    /// The zero element has no inverse and is refused.
    pub fn inverse_without_table(&self, cs: &mut ConstraintSystem) -> (r: Result<M31Var, Error>)
        requires
            self.wf_in(old(cs)),
            old(cs).wf(),
        ensures
            r matches Ok(v) ==> {
                &&& v.value == m31_pow_spec(
                    self.value as int,
                    (M31_MODULUS - 2) as nat,
                )
                &&& (self.value * v.value) % (M31_MODULUS as int) == 1
                &&& v.wf_in(&*final(cs))
                &&& final(cs).wf()
                &&& final(cs).finalized == false
                &&& final(cs).memory@.len() > old(cs).memory@.len()
                &&& forall|i: int|
                    0 <= i < old(cs).memory@.len() ==> #[trigger] final(cs).memory@[i]@ == old(
                        cs,
                    ).memory@[i]@
            },
            r is Err ==> old(cs).finalized || (self.value * m31_pow_spec(
                self.value as int,
                (M31_MODULUS - 2) as nat,
            )) % (M31_MODULUS as int) != 1,
    {
        let inv_val = pow2147483645(self.value);
        let prod = mul_m31(self.value, inv_val);
        if prod != 1 {
            return Err(Error::Overflow);
        }
        let inv = M31Var::new_hint(cs, inv_val)?;
        let ghost mid = *cs;
        let res = self.mul(cs, &inv)?;
        let ghost mid2 = *cs;
        proof {
            inv.wf_monotone(&mid, &mid2);
        }
        res.is_one(cs)?;
        proof {
            inv.wf_monotone(&mid2, &*final(cs));
        }
        Ok(inv)
    }
}


impl crate::bvar::StoredVar for M31Var {
    open spec fn elems_of(v: u32) -> Seq<crate::constraint_system::ElemV> {
        seq![crate::constraint_system::ElemV::Num(v as int)]
    }

    open spec fn elems_ok(e: Seq<crate::constraint_system::ElemV>) -> bool {
        e.len() == 1 && (match e[0] {
            crate::constraint_system::ElemV::Num(n) => 0 <= n < M31_MODULUS,
            crate::constraint_system::ElemV::Str(_) => false,
        })
    }

    proof fn wf_elems(&self, cs: &ConstraintSystem) {
        assert(self.ids().map_values(|id: usize| cs.memory@[id as int]@) =~= Self::elems_of(
            self.native(),
        ));
    }

    proof fn elems_of_ok(v: u32) {
    }

    proof fn elems_of_matches(a: u32, b: u32) {
    }

    fn from_elems(e: &Vec<crate::constraint_system::Element>) -> (r: Option<u32>) {
        let ghost row = e@.map_values(|x: crate::constraint_system::Element| x@);
        if e.len() == 1 {
            match &e[0] {
                crate::constraint_system::Element::Num(x) => {
                    let x = *x;
                    if x >= 0 && x < 0x7fff_ffffi32 {
                        let v: u32 = x as u32;
                        proof {
                            assert(Self::elems_of(v) =~= row);
                        }
                        return Some(v);
                    }
                },
                _ => {},
            }
        }
        proof {
            assert(!Self::elems_ok(row));
        }
        None
    }
}

} // verus!
