use vstd::prelude::*;
use crate::bvar::{lemma_recorded_single, recorded_op, AllocVar, AllocationMode, BVar};
use crate::constraint_system::{ConstraintSystem, ElemV, Element, TraceEntry};
use crate::errors::Error;
use crate::script::{
    emit_op, emit_push_int, OP_ADD, OP_DUP, OP_GREATERTHANOREQUAL, OP_LESSTHANOREQUAL, OP_SUB,
    OP_VERIFY,
};

verus! {

/// A variable holding one unsigned byte.
pub struct U8Var {
    pub variable: usize,
    pub value: u8,
}

impl BVar for U8Var {
    type Value = u8;

    open spec fn ids(&self) -> Seq<usize> {
        seq![self.variable]
    }

    open spec fn native(&self) -> u8 {
        self.value
    }

    open spec fn wf_in(&self, cs: &ConstraintSystem) -> bool {
        &&& self.variable < cs.memory@.len()
        &&& cs.memory@[self.variable as int]@ == ElemV::Num(self.value as int)
    }

    open spec fn spec_length() -> nat {
        1
    }

    fn variables(&self) -> (r: Vec<usize>) {
        let mut v: Vec<usize> = Vec::new();
        v.push(self.variable);
        proof {
            assert(v@ =~= self.ids());
        }
        v
    }

    fn length() -> (r: usize) {
        1
    }

    proof fn ids_in_range(&self, cs: &ConstraintSystem) {
    }

    proof fn wf_monotone(&self, cs1: &ConstraintSystem, cs2: &ConstraintSystem) {
    }
}

impl AllocVar for U8Var {
    open spec fn valid_value(data: u8) -> bool {
        true
    }

    open spec fn value_matches(a: u8, b: u8) -> bool {
        a == b
    }

    fn new_variable(cs: &mut ConstraintSystem, data: u8, mode: AllocationMode) -> (r: Result<
        U8Var,
        Error,
    >) {
        let variable = cs.allocate(Element::Num(data as i32), mode)?;
        proof {
            assert(final(cs).memory@[old(cs).memory@.len() as int] == Element::Num(data as i32));
            assert(final(cs).trace@ =~= old(cs).trace@ + crate::bvar::alloc_entries(
                mode,
                old(cs).memory@.len() as int,
                1nat,
            ));
        }
        let r = U8Var { variable, value: data };
        proof {
            assert(U8Var::value_matches(r.native(), data));
        }
        Ok(r)
    }
}

impl U8Var {
    /// The native value assigned to this variable.
    pub fn value(&self) -> (r: u8)
        ensures
            r == self.native(),
    {
        self.value
    }

    /// Records the byte addition; the native side refuses an overflowing
    /// sum before anything is recorded.
    pub fn add(&self, cs: &mut ConstraintSystem, rhs: &U8Var) -> (r: Result<U8Var, Error>)
        requires
            self.wf_in(old(cs)),
            rhs.wf_in(old(cs)),
            old(cs).wf(),
        ensures
            r is Ok <==> !old(cs).finalized && self.value + rhs.value <= 255,
            self.value + rhs.value > 255 ==> r == Err::<U8Var, Error>(Error::Overflow),
            r is Err ==> *final(cs) == *old(cs),
            r matches Ok(v) ==> {
                &&& v.value == self.value + rhs.value
                &&& v.wf_in(&*final(cs))
                &&& final(cs).wf()
                &&& recorded_op(
                    *old(cs),
                    *final(cs),
                    seq![self.variable, rhs.variable],
                    seq![v.variable],
                )
            },
    {
        let res = match self.value.checked_add(rhs.value) {
            Some(v) => v,
            None => {
                return Err(Error::Overflow);
            },
        };
        let mut snippet: Vec<u8> = Vec::new();
        emit_op(&mut snippet, OP_ADD);
        let mut inputs: Vec<usize> = Vec::new();
        inputs.push(self.variable);
        inputs.push(rhs.variable);
        let ghost inputs_view = inputs@;
        proof {
            assert(inputs_view =~= seq![self.variable, rhs.variable]);
        }
        cs.insert_script(snippet, inputs)?;
        let ghost mid = *cs;
        let v = U8Var::new_function_output(cs, res)?;
        proof {
            assert(final(cs).trace@[old(cs).trace@.len() as int] == mid.trace@[old(
                cs,
            ).trace@.len() as int]);
            assert(mid.trace@[old(cs).trace@.len() as int] == mid.trace@.last());
            assert(v.variable == v.ids()[0]);
            assert(v.variable == old(cs).memory@.len());
            assert(final(cs).trace@.subrange(0, old(cs).trace@.len() as int) =~= old(cs).trace@);
            assert(final(cs).trace@[old(cs).trace@.len() as int + 1] == TraceEntry::DeclareOutput(
                v.variable,
            ));
            lemma_recorded_single(*old(cs), *final(cs), inputs_view, v.variable);
        }
        Ok(v)
    }

    /// Records the byte subtraction; an underflowing difference is
    /// refused before anything is recorded.
    pub fn sub(&self, cs: &mut ConstraintSystem, rhs: &U8Var) -> (r: Result<U8Var, Error>)
        requires
            self.wf_in(old(cs)),
            rhs.wf_in(old(cs)),
            old(cs).wf(),
        ensures
            r is Ok <==> !old(cs).finalized && self.value >= rhs.value,
            self.value < rhs.value ==> r == Err::<U8Var, Error>(Error::Overflow),
            r is Err ==> *final(cs) == *old(cs),
            r matches Ok(v) ==> {
                &&& v.value == self.value - rhs.value
                &&& v.wf_in(&*final(cs))
                &&& final(cs).wf()
                &&& recorded_op(
                    *old(cs),
                    *final(cs),
                    seq![self.variable, rhs.variable],
                    seq![v.variable],
                )
            },
    {
        let res = match self.value.checked_sub(rhs.value) {
            Some(v) => v,
            None => {
                return Err(Error::Overflow);
            },
        };
        let mut snippet: Vec<u8> = Vec::new();
        emit_op(&mut snippet, OP_SUB);
        let mut inputs: Vec<usize> = Vec::new();
        inputs.push(self.variable);
        inputs.push(rhs.variable);
        let ghost inputs_view = inputs@;
        proof {
            assert(inputs_view =~= seq![self.variable, rhs.variable]);
        }
        cs.insert_script(snippet, inputs)?;
        let ghost mid = *cs;
        let v = U8Var::new_function_output(cs, res)?;
        proof {
            assert(final(cs).trace@[old(cs).trace@.len() as int] == mid.trace@[old(
                cs,
            ).trace@.len() as int]);
            assert(mid.trace@[old(cs).trace@.len() as int] == mid.trace@.last());
            assert(v.variable == v.ids()[0]);
            assert(v.variable == old(cs).memory@.len());
            assert(final(cs).trace@.subrange(0, old(cs).trace@.len() as int) =~= old(cs).trace@);
            assert(final(cs).trace@[old(cs).trace@.len() as int + 1] == TraceEntry::DeclareOutput(
                v.variable,
            ));
            lemma_recorded_single(*old(cs), *final(cs), inputs_view, v.variable);
        }
        Ok(v)
    }

    /// Records the narrowing verifier: the emitted program checks that
    /// the lane holds a value in [0, 255].
    pub fn check_format(&self, cs: &mut ConstraintSystem) -> (r: Result<(), Error>)
        requires
            self.wf_in(old(cs)),
            old(cs).wf(),
        ensures
            r is Ok <==> !old(cs).finalized,
            r is Err ==> *final(cs) == *old(cs),
            r is Ok ==> {
                &&& final(cs).wf()
                &&& final(cs).memory@ == old(cs).memory@
                &&& final(cs).finalized == false
                &&& crate::bvar::recorded_op_bytes(
                    *old(cs),
                    *final(cs),
                    seq![OP_DUP] + crate::script::push_int_bytes(0) + seq![
                        OP_GREATERTHANOREQUAL,
                        OP_VERIFY,
                    ] + crate::script::push_int_bytes(255) + seq![OP_LESSTHANOREQUAL, OP_VERIFY],
                    seq![self.variable],
                    seq![],
                )
            },
    {
        let mut snippet: Vec<u8> = Vec::new();
        emit_op(&mut snippet, OP_DUP);
        emit_push_int(&mut snippet, 0);
        emit_op(&mut snippet, OP_GREATERTHANOREQUAL);
        emit_op(&mut snippet, OP_VERIFY);
        emit_push_int(&mut snippet, 255);
        emit_op(&mut snippet, OP_LESSTHANOREQUAL);
        emit_op(&mut snippet, OP_VERIFY);
        let mut inputs: Vec<usize> = Vec::new();
        inputs.push(self.variable);
        let ghost snippet_view = snippet@;
        let ghost inputs_view = inputs@;
        cs.insert_script(snippet, inputs)?;
        proof {
            assert(final(cs).trace@.subrange(0, old(cs).trace@.len() as int) =~= old(cs).trace@);
            assert(inputs_view =~= seq![self.variable]);
            assert(snippet_view =~= seq![OP_DUP] + crate::script::push_int_bytes(0) + seq![
                OP_GREATERTHANOREQUAL,
                OP_VERIFY,
            ] + crate::script::push_int_bytes(255) + seq![OP_LESSTHANOREQUAL, OP_VERIFY]);
        }
        Ok(())
    }
}


impl crate::bvar::StoredVar for U8Var {
    open spec fn elems_of(v: u8) -> Seq<crate::constraint_system::ElemV> {
        seq![crate::constraint_system::ElemV::Num(v as int)]
    }

    open spec fn elems_ok(e: Seq<crate::constraint_system::ElemV>) -> bool {
        e.len() == 1 && (match e[0] {
            crate::constraint_system::ElemV::Num(n) => 0 <= n <= 255,
            crate::constraint_system::ElemV::Str(_) => false,
        })
    }

    proof fn wf_elems(&self, cs: &ConstraintSystem) {
        assert(self.ids().map_values(|id: usize| cs.memory@[id as int]@) =~= Self::elems_of(
            self.native(),
        ));
    }

    proof fn elems_of_ok(v: u8) {
    }

    proof fn elems_of_matches(a: u8, b: u8) {
    }

    fn from_elems(e: &Vec<crate::constraint_system::Element>) -> (r: Option<u8>) {
        let ghost row = e@.map_values(|x: crate::constraint_system::Element| x@);
        if e.len() == 1 {
            match &e[0] {
                crate::constraint_system::Element::Num(x) => {
                    let x = *x;
                    if x >= 0 && x <= 255 {
                        let v: u8 = x as u8;
                        proof {
                            assert(Self::elems_of(v) =~= row);
                        }
                        return Some(v);
                    }
                },
                _ => {},
            }
        }
        proof {
            assert(!Self::elems_ok(row));
        }
        None
    }
}

} // verus!
