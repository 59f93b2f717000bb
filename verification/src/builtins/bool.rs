use vstd::prelude::*;
use crate::bvar::{lemma_recorded_single, recorded_op, AllocVar, AllocationMode, BVar};
use crate::constraint_system::{ConstraintSystem, ElemV, Element, TraceEntry};
use crate::errors::Error;
use crate::script::{emit_op, OP_AND, OP_ENDIF, OP_IF, OP_NOT, OP_OR, OP_VERIFY};

verus! {

/// A variable holding one boolean lane: zero or one on the stack.
pub struct BoolVar {
    pub variable: usize,
    pub value: bool,
}

impl BVar for BoolVar {
    type Value = bool;

    open spec fn ids(&self) -> Seq<usize> {
        seq![self.variable]
    }

    open spec fn native(&self) -> bool {
        self.value
    }

    open spec fn wf_in(&self, cs: &ConstraintSystem) -> bool {
        &&& self.variable < cs.memory@.len()
        &&& cs.memory@[self.variable as int]@ == ElemV::Num(
            if self.value {
                1int
            } else {
                0int
            },
        )
    }

    open spec fn spec_length() -> nat {
        1
    }

    fn variables(&self) -> (r: Vec<usize>) {
        let mut v: Vec<usize> = Vec::new();
        v.push(self.variable);
        proof {
            assert(v@ =~= self.ids());
        }
        v
    }

    fn length() -> (r: usize) {
        1
    }

    proof fn ids_in_range(&self, cs: &ConstraintSystem) {
    }

    proof fn wf_monotone(&self, cs1: &ConstraintSystem, cs2: &ConstraintSystem) {
    }
}

impl AllocVar for BoolVar {
    open spec fn valid_value(data: bool) -> bool {
        true
    }

    open spec fn value_matches(a: bool, b: bool) -> bool {
        a == b
    }

    fn new_variable(cs: &mut ConstraintSystem, data: bool, mode: AllocationMode) -> (r: Result<
        BoolVar,
        Error,
    >) {
        let num: i32 = if data {
            1
        } else {
            0
        };
        let variable = cs.allocate(Element::Num(num), mode)?;
        proof {
            assert(final(cs).memory@[old(cs).memory@.len() as int] == Element::Num(num));
            assert(final(cs).trace@ =~= old(cs).trace@ + crate::bvar::alloc_entries(
                mode,
                old(cs).memory@.len() as int,
                1nat,
            ));
        }
        let r = BoolVar { variable, value: data };
        proof {
            assert(BoolVar::value_matches(r.native(), data));
        }
        Ok(r)
    }
}

impl BoolVar {
    /// The native value assigned to this variable.
    pub fn value(&self) -> (r: bool)
        ensures
            r == self.native(),
    {
        self.value
    }

    /// Records one single-snippet boolean step over the given operand
    /// ids, producing a fresh output variable.
    fn unary_like(
        cs: &mut ConstraintSystem,
        snippet: Vec<u8>,
        inputs: Vec<usize>,
        res: bool,
    ) -> (r: Result<BoolVar, Error>)
        requires
            old(cs).wf(),
            forall|i: int| 0 <= i < inputs@.len() ==> #[trigger] inputs@[i] < old(cs).memory@.len(),
        ensures
            r is Ok <==> !old(cs).finalized,
            r is Err ==> *final(cs) == *old(cs),
            r matches Ok(v) ==> {
                &&& v.value == res
                &&& v.wf_in(&*final(cs))
                &&& final(cs).wf()
                &&& recorded_op(*old(cs), *final(cs), inputs@, seq![v.variable])
            },
    {
        let ghost inputs_view = inputs@;
        cs.insert_script(snippet, inputs)?;
        let ghost mid = *cs;
        let v = BoolVar::new_function_output(cs, res)?;
        proof {
            assert(final(cs).trace@[old(cs).trace@.len() as int] == mid.trace@[old(
                cs,
            ).trace@.len() as int]);
            assert(mid.trace@[old(cs).trace@.len() as int] == mid.trace@.last());
            assert(v.variable == v.ids()[0]);
            assert(v.variable == old(cs).memory@.len());
            assert(final(cs).trace@.subrange(0, old(cs).trace@.len() as int) =~= old(cs).trace@);
            assert(final(cs).trace@[old(cs).trace@.len() as int + 1] == TraceEntry::DeclareOutput(
                v.variable,
            ));
            lemma_recorded_single(*old(cs), *final(cs), inputs_view, v.variable);
        }
        Ok(v)
    }

    /// Records the boolean negation.
    pub fn not(&self, cs: &mut ConstraintSystem) -> (r: Result<BoolVar, Error>)
        requires
            self.wf_in(old(cs)),
            old(cs).wf(),
        ensures
            r is Ok <==> !old(cs).finalized,
            r is Err ==> *final(cs) == *old(cs),
            r matches Ok(v) ==> {
                &&& v.value == !self.value
                &&& v.wf_in(&*final(cs))
                &&& final(cs).wf()
                &&& recorded_op(*old(cs), *final(cs), seq![self.variable], seq![v.variable])
            },
    {
        let mut snippet: Vec<u8> = Vec::new();
        emit_op(&mut snippet, OP_NOT);
        let mut inputs: Vec<usize> = Vec::new();
        inputs.push(self.variable);
        proof {
            assert(inputs@ =~= seq![self.variable]);
        }
        Self::unary_like(cs, snippet, inputs, !self.value)
    }

    /// Records the boolean conjunction.
    pub fn and(&self, cs: &mut ConstraintSystem, rhs: &BoolVar) -> (r: Result<BoolVar, Error>)
        requires
            self.wf_in(old(cs)),
            rhs.wf_in(old(cs)),
            old(cs).wf(),
        ensures
            r is Ok <==> !old(cs).finalized,
            r is Err ==> *final(cs) == *old(cs),
            r matches Ok(v) ==> {
                &&& v.value == (self.value && rhs.value)
                &&& v.wf_in(&*final(cs))
                &&& final(cs).wf()
                &&& recorded_op(
                    *old(cs),
                    *final(cs),
                    seq![self.variable, rhs.variable],
                    seq![v.variable],
                )
            },
    {
        let mut snippet: Vec<u8> = Vec::new();
        emit_op(&mut snippet, OP_AND);
        let mut inputs: Vec<usize> = Vec::new();
        inputs.push(self.variable);
        inputs.push(rhs.variable);
        proof {
            assert(inputs@ =~= seq![self.variable, rhs.variable]);
        }
        Self::unary_like(cs, snippet, inputs, self.value && rhs.value)
    }

    /// Records the boolean disjunction.
    pub fn or(&self, cs: &mut ConstraintSystem, rhs: &BoolVar) -> (r: Result<BoolVar, Error>)
        requires
            self.wf_in(old(cs)),
            rhs.wf_in(old(cs)),
            old(cs).wf(),
        ensures
            r is Ok <==> !old(cs).finalized,
            r is Err ==> *final(cs) == *old(cs),
            r matches Ok(v) ==> {
                &&& v.value == (self.value || rhs.value)
                &&& v.wf_in(&*final(cs))
                &&& final(cs).wf()
                &&& recorded_op(
                    *old(cs),
                    *final(cs),
                    seq![self.variable, rhs.variable],
                    seq![v.variable],
                )
            },
    {
        let mut snippet: Vec<u8> = Vec::new();
        emit_op(&mut snippet, OP_OR);
        let mut inputs: Vec<usize> = Vec::new();
        inputs.push(self.variable);
        inputs.push(rhs.variable);
        proof {
            assert(inputs@ =~= seq![self.variable, rhs.variable]);
        }
        Self::unary_like(cs, snippet, inputs, self.value || rhs.value)
    }

    /// Records the boolean exclusive or: conditioned on the upper lane,
    /// the lower lane is negated.
    pub fn xor(&self, cs: &mut ConstraintSystem, rhs: &BoolVar) -> (r: Result<BoolVar, Error>)
        requires
            self.wf_in(old(cs)),
            rhs.wf_in(old(cs)),
            old(cs).wf(),
        ensures
            r is Ok <==> !old(cs).finalized,
            r is Err ==> *final(cs) == *old(cs),
            r matches Ok(v) ==> {
                &&& v.value == (self.value != rhs.value)
                &&& v.wf_in(&*final(cs))
                &&& final(cs).wf()
                &&& recorded_op(
                    *old(cs),
                    *final(cs),
                    seq![self.variable, rhs.variable],
                    seq![v.variable],
                )
            },
    {
        let mut snippet: Vec<u8> = Vec::new();
        emit_op(&mut snippet, OP_IF);
        emit_op(&mut snippet, OP_NOT);
        emit_op(&mut snippet, OP_ENDIF);
        let mut inputs: Vec<usize> = Vec::new();
        inputs.push(self.variable);
        inputs.push(rhs.variable);
        proof {
            assert(inputs@ =~= seq![self.variable, rhs.variable]);
        }
        Self::unary_like(cs, snippet, inputs, self.value != rhs.value)
    }

    /// Records the verifier that consumes the lane and fails the program
    /// when it is zero.  The native mirror must be true.
    pub fn verify(self, cs: &mut ConstraintSystem) -> (r: Result<(), Error>)
        requires
            self.wf_in(old(cs)),
            old(cs).wf(),
            self.value,
        ensures
            r is Ok <==> !old(cs).finalized,
            r is Err ==> *final(cs) == *old(cs),
            r is Ok ==> {
                &&& final(cs).wf()
                &&& final(cs).memory@ == old(cs).memory@
                &&& final(cs).finalized == false
                &&& final(cs).trace@.len() == old(cs).trace@.len() + 1
                &&& final(cs).trace@.subrange(0, old(cs).trace@.len() as int) == old(cs).trace@
            },
    {
        let mut snippet: Vec<u8> = Vec::new();
        emit_op(&mut snippet, OP_VERIFY);
        let mut inputs: Vec<usize> = Vec::new();
        inputs.push(self.variable);
        cs.insert_script(snippet, inputs)?;
        proof {
            assert(final(cs).trace@.subrange(0, old(cs).trace@.len() as int) =~= old(cs).trace@);
        }
        Ok(())
    }
}


impl crate::bvar::StoredVar for BoolVar {
    open spec fn elems_of(v: bool) -> Seq<crate::constraint_system::ElemV> {
        seq![crate::constraint_system::ElemV::Num(if v { 1int } else { 0int })]
    }

    open spec fn elems_ok(e: Seq<crate::constraint_system::ElemV>) -> bool {
        e.len() == 1 && (match e[0] {
            crate::constraint_system::ElemV::Num(n) => n == 0 || n == 1,
            crate::constraint_system::ElemV::Str(_) => false,
        })
    }

    proof fn wf_elems(&self, cs: &ConstraintSystem) {
        assert(self.ids().map_values(|id: usize| cs.memory@[id as int]@) =~= Self::elems_of(
            self.native(),
        ));
    }

    proof fn elems_of_ok(v: bool) {
    }

    proof fn elems_of_matches(a: bool, b: bool) {
    }

    fn from_elems(e: &Vec<crate::constraint_system::Element>) -> (r: Option<bool>) {
        let ghost row = e@.map_values(|x: crate::constraint_system::Element| x@);
        if e.len() == 1 {
            match &e[0] {
                crate::constraint_system::Element::Num(x) => {
                    let x = *x;
                    if x == 0 || x == 1 {
                        let v: bool = x == 1;
                        proof {
                            assert(Self::elems_of(v) =~= row);
                        }
                        return Some(v);
                    }
                },
                _ => {},
            }
        }
        proof {
            assert(!Self::elems_ok(row));
        }
        None
    }
}

} // verus!
