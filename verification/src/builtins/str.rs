use vstd::prelude::*;
use crate::bvar::{AllocVar, AllocationMode, BVar};
use crate::constraint_system::{ConstraintSystem, ElemV, Element, TraceEntry};
use crate::errors::Error;
use crate::script::{emit_op, emit_push_int, OP_CAT, OP_DROP, OP_EQUALVERIFY, OP_LESSTHAN, OP_SIZE, OP_VERIFY};

verus! {

/// Copies a byte vector, value for value.
pub fn clone_bytes(s: &Vec<u8>) -> (r: Vec<u8>)
    ensures
        r@ == s@,
{
    let mut out: Vec<u8> = Vec::new();
    let mut i: usize = 0;
    while i < s.len()
        invariant
            0 <= i <= s@.len(),
            out@ == s@.subrange(0, i as int),
        decreases s@.len() - i,
    {
        out.push(s[i]);
        proof {
            assert(out@ =~= s@.subrange(0, i + 1));
        }
        i = i + 1;
    }
    proof {
        assert(out@ =~= s@);
    }
    out
}

/// A variable holding one byte string element.
pub struct StrVar {
    pub variable: usize,
    pub value: Vec<u8>,
}

impl BVar for StrVar {
    type Value = Vec<u8>;

    open spec fn ids(&self) -> Seq<usize> {
        seq![self.variable]
    }

    open spec fn native(&self) -> Vec<u8> {
        self.value
    }

    open spec fn wf_in(&self, cs: &ConstraintSystem) -> bool {
        &&& self.variable < cs.memory@.len()
        &&& cs.memory@[self.variable as int]@ == ElemV::Str(self.value@)
        &&& self.value@.len() <= 0xffff
    }

    open spec fn spec_length() -> nat {
        1
    }

    fn variables(&self) -> (r: Vec<usize>) {
        let mut v: Vec<usize> = Vec::new();
        v.push(self.variable);
        proof {
            assert(v@ =~= self.ids());
        }
        v
    }

    fn length() -> (r: usize) {
        1
    }

    proof fn ids_in_range(&self, cs: &ConstraintSystem) {
    }

    proof fn wf_monotone(&self, cs1: &ConstraintSystem, cs2: &ConstraintSystem) {
    }
}

impl AllocVar for StrVar {
    open spec fn valid_value(data: Vec<u8>) -> bool {
        data@.len() <= 0xffff
    }

    open spec fn value_matches(a: Vec<u8>, b: Vec<u8>) -> bool {
        a@ == b@
    }

    fn new_variable(cs: &mut ConstraintSystem, data: Vec<u8>, mode: AllocationMode) -> (r: Result<
        StrVar,
        Error,
    >) {
        let copy = clone_bytes(&data);
        let variable = cs.allocate(Element::Str(data), mode)?;
        proof {
            assert(final(cs).memory@[old(cs).memory@.len() as int]@ == ElemV::Str(copy@));
            assert(final(cs).trace@ =~= old(cs).trace@ + crate::bvar::alloc_entries(
                mode,
                old(cs).memory@.len() as int,
                1nat,
            ));
        }
        let r = StrVar { variable, value: copy };
        proof {
            assert(StrVar::value_matches(r.native(), data));
        }
        Ok(r)
    }
}

impl StrVar {
    /// The native byte string assigned to this variable.
    pub fn value(&self) -> (r: Vec<u8>)
        ensures
            r@ == self.native()@,
    {
        clone_bytes(&self.value)
    }

    /// Records the concatenation of two byte strings.
    pub fn concat(&self, cs: &mut ConstraintSystem, rhs: &StrVar) -> (r: Result<StrVar, Error>)
        requires
            self.wf_in(old(cs)),
            rhs.wf_in(old(cs)),
            old(cs).wf(),
            self.value@.len() + rhs.value@.len() <= 0xffff,
        ensures
            r is Ok <==> !old(cs).finalized,
            r is Err ==> *final(cs) == *old(cs),
            r matches Ok(v) ==> {
                &&& v.value@ == self.value@ + rhs.value@
                &&& v.wf_in(&*final(cs))
                &&& final(cs).wf()
                &&& final(cs).finalized == false
                &&& old(cs).memory@.len() <= final(cs).memory@.len()
                &&& forall|i: int|
                    0 <= i < old(cs).memory@.len() ==> #[trigger] final(cs).memory@[i]@ == old(
                        cs,
                    ).memory@[i]@
            },
    {
        let mut res = clone_bytes(&self.value);
        let mut i: usize = 0;
        while i < rhs.value.len()
            invariant
                0 <= i <= rhs.value@.len(),
                res@ == self.value@ + rhs.value@.subrange(0, i as int),
            decreases rhs.value@.len() - i,
        {
            res.push(rhs.value[i]);
            proof {
                assert(res@ =~= self.value@ + rhs.value@.subrange(0, i + 1));
            }
            i = i + 1;
        }
        proof {
            assert(res@ =~= self.value@ + rhs.value@);
        }
        let mut snippet: Vec<u8> = Vec::new();
        emit_op(&mut snippet, OP_CAT);
        let mut inputs: Vec<usize> = Vec::new();
        inputs.push(self.variable);
        inputs.push(rhs.variable);
        cs.insert_script(snippet, inputs)?;
        let v = StrVar::new_function_output(cs, res)?;
        Ok(v)
    }

    /// Records the verifier that the string's length equals `l`.
    pub fn len_equalverify(&self, cs: &mut ConstraintSystem, l: u32) -> (r: Result<(), Error>)
        requires
            self.wf_in(old(cs)),
            old(cs).wf(),
            self.value@.len() == l,
        ensures
            r is Ok <==> !old(cs).finalized,
            r is Err ==> *final(cs) == *old(cs),
            r is Ok ==> final(cs).wf() && final(cs).memory@ == old(cs).memory@
                && !final(cs).finalized,
    {
        let mut snippet: Vec<u8> = Vec::new();
        emit_op(&mut snippet, OP_SIZE);
        emit_push_int(&mut snippet, l as i64);
        emit_op(&mut snippet, OP_EQUALVERIFY);
        emit_op(&mut snippet, OP_DROP);
        let mut inputs: Vec<usize> = Vec::new();
        inputs.push(self.variable);
        cs.insert_script(snippet, inputs)?;
        Ok(())
    }

    /// Records the verifier that the string is shorter than `l` bytes.
    pub fn len_lessthan(&self, cs: &mut ConstraintSystem, l: u32) -> (r: Result<(), Error>)
        requires
            self.wf_in(old(cs)),
            old(cs).wf(),
            self.value@.len() < l,
        ensures
            r is Ok <==> !old(cs).finalized,
            r is Err ==> *final(cs) == *old(cs),
            r is Ok ==> final(cs).wf() && final(cs).memory@ == old(cs).memory@
                && !final(cs).finalized,
    {
        let mut snippet: Vec<u8> = Vec::new();
        emit_op(&mut snippet, OP_SIZE);
        emit_push_int(&mut snippet, l as i64);
        emit_op(&mut snippet, OP_LESSTHAN);
        emit_op(&mut snippet, OP_VERIFY);
        emit_op(&mut snippet, OP_DROP);
        let mut inputs: Vec<usize> = Vec::new();
        inputs.push(self.variable);
        cs.insert_script(snippet, inputs)?;
        Ok(())
    }

    /// Records the verifier that the string has at most `l` bytes.
    pub fn len_lessthanorequal(&self, cs: &mut ConstraintSystem, l: u32) -> (r: Result<(), Error>)
        requires
            self.wf_in(old(cs)),
            old(cs).wf(),
            self.value@.len() <= l,
            l < 0xffff_ffff,
        ensures
            r is Ok <==> !old(cs).finalized,
            r is Err ==> *final(cs) == *old(cs),
            r is Ok ==> final(cs).wf() && final(cs).memory@ == old(cs).memory@
                && !final(cs).finalized,
    {
        self.len_lessthan(cs, l + 1)
    }

    /// Records the verifier that two byte strings are equal.
    pub fn equalverify(&self, cs: &mut ConstraintSystem, rhs: &StrVar) -> (r: Result<(), Error>)
        requires
            self.wf_in(old(cs)),
            rhs.wf_in(old(cs)),
            old(cs).wf(),
            self.value@ == rhs.value@,
        ensures
            r is Ok <==> !old(cs).finalized,
            r is Err ==> *final(cs) == *old(cs),
            r is Ok ==> final(cs).wf() && final(cs).memory@ == old(cs).memory@
                && !final(cs).finalized,
    {
        let mut snippet: Vec<u8> = Vec::new();
        emit_op(&mut snippet, OP_EQUALVERIFY);
        let mut inputs: Vec<usize> = Vec::new();
        inputs.push(self.variable);
        inputs.push(rhs.variable);
        cs.insert_script(snippet, inputs)?;
        Ok(())
    }
}


impl crate::bvar::StoredVar for StrVar {
    open spec fn elems_of(v: Vec<u8>) -> Seq<crate::constraint_system::ElemV> {
        seq![crate::constraint_system::ElemV::Str(v@)]
    }

    open spec fn elems_ok(e: Seq<crate::constraint_system::ElemV>) -> bool {
        e.len() == 1 && (match e[0] {
            crate::constraint_system::ElemV::Str(s) => s.len() <= 0xffff,
            crate::constraint_system::ElemV::Num(_) => false,
        })
    }

    proof fn wf_elems(&self, cs: &ConstraintSystem) {
        assert(self.ids().map_values(|id: usize| cs.memory@[id as int]@) =~= Self::elems_of(
            self.native(),
        ));
    }

    proof fn elems_of_ok(v: Vec<u8>) {
    }

    proof fn elems_of_matches(a: Vec<u8>, b: Vec<u8>) {
        assert(Self::elems_of(a) =~= Self::elems_of(b));
    }

    fn from_elems(e: &Vec<crate::constraint_system::Element>) -> (r: Option<Vec<u8>>) {
        let ghost row = e@.map_values(|x: crate::constraint_system::Element| x@);
        if e.len() == 1 {
            match &e[0] {
                crate::constraint_system::Element::Str(s) => {
                    if s.len() <= 0xffff {
                        let v = crate::builtins::str::clone_bytes(s);
                        proof {
                            assert(Self::elems_of(v) =~= row);
                        }
                        return Some(v);
                    }
                },
                _ => {},
            }
        }
        proof {
            assert(!Self::elems_ok(row));
        }
        None
    }
}

} // verus!
