use vstd::prelude::*;
use sha2::Digest;
use crate::builtins::str::{clone_bytes, StrVar};
use crate::bvar::{AllocVar, AllocationMode, BVar};
use crate::constraint_system::{ConstraintSystem, ElemV, Element, TraceEntry};
use crate::errors::Error;
use crate::script::{emit_op, scriptnum_bytes, scriptnum_encode, OP_CAT, OP_EQUALVERIFY, OP_SHA256};

verus! {

/// The digest the hash function assigns to a byte string: a fixed
/// function of the input bytes alone.
pub uninterp spec fn sha256_of(data: Seq<u8>) -> Seq<u8>;

/// Relies on sha2::Sha256: one digest over the input bytes, thirty-two
/// bytes long, depending on the input alone.
#[verifier::external_body]
pub fn sha256(data: &Vec<u8>) -> (r: Vec<u8>)
    ensures
        r@ == sha256_of(data@),
        r@.len() == 32,
{
    sha2::Sha256::digest(data.as_slice()).to_vec()
}

/// The byte encoding an element contributes to a hash: numbers in the
/// stack machine's minimal signed form, byte strings as they stand.
pub open spec fn elem_bytes(e: ElemV) -> Seq<u8> {
    match e {
        ElemV::Num(v) => scriptnum_bytes(v),
        ElemV::Str(s) => s,
    }
}

/// The running digest after folding the elements from position `i` on
/// backwards into `h`: each step hashes the element's encoding followed
/// by the running digest.
pub open spec fn hash_chain(h: Seq<u8>, elems: Seq<ElemV>, i: int) -> Seq<u8>
    decreases elems.len() - i when 0 <= i <= elems.len()
{
    if i >= elems.len() {
        h
    } else {
        hash_chain(sha256_of(elem_bytes(elems[i]) + h), elems, i + 1)
    }
}

/// The digest a variable's elements fold to: the seed is the digest of
/// the encoded footprint, then each element in stack order is folded in.
pub open spec fn hash_of_elems(elems: Seq<ElemV>) -> Seq<u8> {
    hash_chain(sha256_of(scriptnum_bytes(elems.len() as int)), elems, 0)
}

/// A variable holding one 32-byte digest element.
pub struct HashVar {
    pub variable: usize,
    pub value: Vec<u8>,
}

impl BVar for HashVar {
    type Value = Vec<u8>;

    open spec fn ids(&self) -> Seq<usize> {
        seq![self.variable]
    }

    open spec fn native(&self) -> Vec<u8> {
        self.value
    }

    open spec fn wf_in(&self, cs: &ConstraintSystem) -> bool {
        &&& self.variable < cs.memory@.len()
        &&& cs.memory@[self.variable as int]@ == ElemV::Str(self.value@)
        &&& self.value@.len() == 32
    }

    open spec fn spec_length() -> nat {
        1
    }

    fn variables(&self) -> (r: Vec<usize>) {
        let mut v: Vec<usize> = Vec::new();
        v.push(self.variable);
        proof {
            assert(v@ =~= self.ids());
        }
        v
    }

    fn length() -> (r: usize) {
        1
    }

    proof fn ids_in_range(&self, cs: &ConstraintSystem) {
    }

    proof fn wf_monotone(&self, cs1: &ConstraintSystem, cs2: &ConstraintSystem) {
    }
}

impl AllocVar for HashVar {
    open spec fn valid_value(data: Vec<u8>) -> bool {
        data@.len() == 32
    }

    open spec fn value_matches(a: Vec<u8>, b: Vec<u8>) -> bool {
        a@ == b@
    }

    fn new_variable(cs: &mut ConstraintSystem, data: Vec<u8>, mode: AllocationMode) -> (r: Result<
        HashVar,
        Error,
    >) {
        let copy = clone_bytes(&data);
        let variable = cs.allocate(Element::Str(data), mode)?;
        proof {
            assert(final(cs).memory@[old(cs).memory@.len() as int]@ == ElemV::Str(copy@));
            assert(final(cs).trace@ =~= old(cs).trace@ + crate::bvar::alloc_entries(
                mode,
                old(cs).memory@.len() as int,
                1nat,
            ));
        }
        let r = HashVar { variable, value: copy };
        proof {
            assert(HashVar::value_matches(r.native(), data));
        }
        Ok(r)
    }
}

impl HashVar {
    /// The native digest assigned to this variable.
    pub fn value(&self) -> (r: Vec<u8>)
        ensures
            r@ == self.native()@,
    {
        clone_bytes(&self.value)
    }

    /// Records the combination of two digests: concatenate, then hash.
    /// The right operand's bytes lead.
    pub fn combine(&self, cs: &mut ConstraintSystem, rhs: &HashVar) -> (r: Result<HashVar, Error>)
        requires
            self.wf_in(old(cs)),
            rhs.wf_in(old(cs)),
            old(cs).wf(),
        ensures
            r is Ok <==> !old(cs).finalized,
            r is Err ==> *final(cs) == *old(cs),
            r matches Ok(v) ==> {
                &&& v.value@ == sha256_of(rhs.value@ + self.value@)
                &&& crate::bvar::recorded_op_bytes(
                    *old(cs),
                    *final(cs),
                    seq![OP_CAT, OP_SHA256],
                    seq![rhs.variable, self.variable],
                    seq![v.variable],
                )
                &&& v.wf_in(&*final(cs))
                &&& final(cs).wf()
                &&& final(cs).finalized == false
                &&& old(cs).memory@.len() <= final(cs).memory@.len()
                &&& forall|i: int|
                    0 <= i < old(cs).memory@.len() ==> #[trigger] final(cs).memory@[i]@ == old(
                        cs,
                    ).memory@[i]@
            },
    {
        if cs.finalized {
            return Err(Error::FinalizedMutation);
        }
        let mut cat = clone_bytes(&rhs.value);
        let mut i: usize = 0;
        while i < self.value.len()
            invariant
                0 <= i <= self.value@.len(),
                cat@ == rhs.value@ + self.value@.subrange(0, i as int),
            decreases self.value@.len() - i,
        {
            cat.push(self.value[i]);
            proof {
                assert(cat@ =~= rhs.value@ + self.value@.subrange(0, i + 1));
            }
            i = i + 1;
        }
        proof {
            assert(cat@ =~= rhs.value@ + self.value@);
        }
        let digest = sha256(&cat);
        let mut snippet: Vec<u8> = Vec::new();
        emit_op(&mut snippet, OP_CAT);
        emit_op(&mut snippet, OP_SHA256);
        let mut inputs: Vec<usize> = Vec::new();
        inputs.push(rhs.variable);
        inputs.push(self.variable);
        let ghost inputs_view = inputs@;
        let ghost snippet_view = snippet@;
        match cs.insert_script(snippet, inputs) {
            Ok(_) => {},
            Err(e) => {
                proof {
                    assert(false);
                }
                return Err(e);
            },
        }
        let v = HashVar::new_function_output(cs, digest)?;
        proof {
            assert(inputs_view =~= seq![rhs.variable, self.variable]);
            assert(snippet_view =~= seq![OP_CAT, OP_SHA256]);
            assert(final(cs).trace@.subrange(0, old(cs).trace@.len() as int) =~= old(cs).trace@);
        }
        Ok(v)
    }

    /// Records the fold of a variable's stack elements into one digest:
    /// the seed digest encodes the footprint, then every element is
    /// hashed in, in stack order, each over its encoding and the running
    /// digest.
    pub fn from_var<T: BVar>(cs: &mut ConstraintSystem, var: &T) -> (r: Result<HashVar, Error>)
        requires
            var.wf_in(old(cs)),
            old(cs).wf(),
            1 <= var.ids().len() <= 0xffff,
        ensures
            r is Ok <==> !old(cs).finalized,
            r is Err ==> *final(cs) == *old(cs),
            r matches Ok(v) ==> {
                &&& v.value@ == hash_of_elems(
                    var.ids().map_values(|id: usize| old(cs).memory@[id as int]@),
                )
                &&& v.wf_in(&*final(cs))
                &&& final(cs).wf()
                &&& final(cs).finalized == false
                &&& old(cs).memory@.len() <= final(cs).memory@.len()
                &&& forall|i: int|
                    0 <= i < old(cs).memory@.len() ==> #[trigger] final(cs).memory@[i]@ == old(
                        cs,
                    ).memory@[i]@
            },
    {
        if cs.finalized {
            return Err(Error::FinalizedMutation);
        }
        let ids = var.variables();
        proof {
            var.ids_in_range(old(cs));
        }
        let ghost elems = var.ids().map_values(|id: usize| old(cs).memory@[id as int]@);
        let len_bytes = scriptnum_encode(ids.len() as i64);
        let mut cur = sha256(&len_bytes);
        proof {
            assert(elems.len() == ids@.len());
            assert(cur@ == sha256_of(scriptnum_bytes(elems.len() as int)));
        }
        let mut i: usize = 0;
        while i < ids.len()
            invariant
                0 <= i <= ids@.len(),
                ids@ == var.ids(),
                elems == var.ids().map_values(|id: usize| cs.memory@[id as int]@),
                forall|k: int| 0 <= k < ids@.len() ==> #[trigger] ids@[k] < cs.memory@.len(),
                cur@.len() == 32,
                hash_chain(cur@, elems, i as int) == hash_chain(
                    sha256_of(scriptnum_bytes(elems.len() as int)),
                    elems,
                    0,
                ),
                *cs == *old(cs),
            decreases ids@.len() - i,
        {
            let e = match cs.get_element(ids[i]) {
                Ok(e) => e,
                Err(_) => {
                    proof {
                        assert(false);
                    }
                    return Err(Error::MemoryCorruption);
                },
            };
            let mut buf: Vec<u8> = match e {
                Element::Num(v) => scriptnum_encode(*v as i64),
                Element::Str(s) => clone_bytes(s),
            };
            proof {
                assert(buf@ == elem_bytes(elems[i as int]));
            }
            let mut j: usize = 0;
            let ghost pre = buf@;
            while j < cur.len()
                invariant
                    0 <= j <= cur@.len(),
                    buf@ == pre + cur@.subrange(0, j as int),
                decreases cur@.len() - j,
            {
                buf.push(cur[j]);
                proof {
                    assert(buf@ =~= pre + cur@.subrange(0, j + 1));
                }
                j = j + 1;
            }
            proof {
                assert(buf@ =~= pre + cur@);
            }
            cur = sha256(&buf);
            i = i + 1;
        }
        // the snippet seeds with the digest of the pushed footprint, then
        // folds one element per step; the fold consumes the shallowest
        // operand first, so the block is brought up in reverse id order
        let mut snippet: Vec<u8> = Vec::new();
        crate::script::emit_push_int(&mut snippet, ids.len() as i64);
        emit_op(&mut snippet, OP_SHA256);
        let mut k: usize = 0;
        while k < ids.len()
            invariant
                0 <= k <= ids@.len(),
            decreases ids@.len() - k,
        {
            emit_op(&mut snippet, OP_CAT);
            emit_op(&mut snippet, OP_SHA256);
            k = k + 1;
        }
        let mut rev: Vec<usize> = Vec::new();
        let mut k2: usize = ids.len();
        while k2 > 0
            invariant
                0 <= k2 <= ids@.len(),
                rev@.len() == ids@.len() - k2,
                forall|j: int|
                    0 <= j < rev@.len() ==> #[trigger] rev@[j] == ids@[ids@.len() - 1 - j],
            decreases k2,
        {
            k2 = k2 - 1;
            rev.push(ids[k2]);
        }
        proof {
            assert(forall|j: int| 0 <= j < rev@.len() ==> #[trigger] rev@[j] < cs.memory@.len());
        }
        match cs.insert_script(snippet, rev) {
            Ok(_) => {},
            Err(e) => {
                proof {
                    assert(false);
                }
                return Err(e);
            },
        }
        let v = HashVar::new_function_output(cs, cur)?;
        Ok(v)
    }

    /// Records the verifier that two digests are equal.
    pub fn equalverify(&self, cs: &mut ConstraintSystem, rhs: &HashVar) -> (r: Result<(), Error>)
        requires
            self.wf_in(old(cs)),
            rhs.wf_in(old(cs)),
            old(cs).wf(),
            self.value@ == rhs.value@,
        ensures
            r is Ok <==> !old(cs).finalized,
            r is Err ==> *final(cs) == *old(cs),
            r is Ok ==> final(cs).wf() && final(cs).memory@ == old(cs).memory@
                && !final(cs).finalized && crate::bvar::recorded_op_bytes(
                *old(cs),
                *final(cs),
                seq![OP_EQUALVERIFY],
                seq![self.variable, rhs.variable],
                seq![],
            ),
    {
        let mut snippet: Vec<u8> = Vec::new();
        emit_op(&mut snippet, OP_EQUALVERIFY);
        let mut inputs: Vec<usize> = Vec::new();
        inputs.push(self.variable);
        inputs.push(rhs.variable);
        let ghost inputs_view = inputs@;
        let ghost snippet_view = snippet@;
        cs.insert_script(snippet, inputs)?;
        proof {
            assert(inputs_view =~= seq![self.variable, rhs.variable]);
            assert(snippet_view =~= seq![OP_EQUALVERIFY]);
            assert(final(cs).trace@.subrange(0, old(cs).trace@.len() as int) =~= old(cs).trace@);
        }
        Ok(())
    }

    /// Hands the digest over as a plain byte-string variable through a
    /// blank subprogram that repositions it.
    pub fn to_str(&self, cs: &mut ConstraintSystem) -> (r: Result<StrVar, Error>)
        requires
            self.wf_in(old(cs)),
            old(cs).wf(),
        ensures
            r is Ok <==> !old(cs).finalized,
            r is Err ==> *final(cs) == *old(cs),
            r matches Ok(v) ==> {
                &&& v.value@ == self.value@
                &&& crate::bvar::recorded_op_bytes(
                    *old(cs),
                    *final(cs),
                    Seq::<u8>::empty(),
                    seq![self.variable],
                    seq![v.variable],
                )
                &&& v.wf_in(&*final(cs))
                &&& final(cs).wf()
                &&& final(cs).finalized == false
                &&& old(cs).memory@.len() <= final(cs).memory@.len()
                &&& forall|i: int|
                    0 <= i < old(cs).memory@.len() ==> #[trigger] final(cs).memory@[i]@ == old(
                        cs,
                    ).memory@[i]@
            },
    {
        let snippet: Vec<u8> = Vec::new();
        let mut inputs: Vec<usize> = Vec::new();
        inputs.push(self.variable);
        let ghost inputs_view = inputs@;
        let ghost snippet_view = snippet@;
        cs.insert_script(snippet, inputs)?;
        let v = StrVar::new_function_output(cs, self.value())?;
        proof {
            assert(inputs_view =~= seq![self.variable]);
            assert(snippet_view =~= Seq::<u8>::empty());
            assert(final(cs).trace@.subrange(0, old(cs).trace@.len() as int) =~= old(cs).trace@);
        }
        Ok(v)
    }
}


impl crate::bvar::StoredVar for HashVar {
    open spec fn elems_of(v: Vec<u8>) -> Seq<crate::constraint_system::ElemV> {
        seq![crate::constraint_system::ElemV::Str(v@)]
    }

    open spec fn elems_ok(e: Seq<crate::constraint_system::ElemV>) -> bool {
        e.len() == 1 && (match e[0] {
            crate::constraint_system::ElemV::Str(s) => s.len() == 32,
            crate::constraint_system::ElemV::Num(_) => false,
        })
    }

    proof fn wf_elems(&self, cs: &ConstraintSystem) {
        assert(self.ids().map_values(|id: usize| cs.memory@[id as int]@) =~= Self::elems_of(
            self.native(),
        ));
    }

    proof fn elems_of_ok(v: Vec<u8>) {
    }

    proof fn elems_of_matches(a: Vec<u8>, b: Vec<u8>) {
        assert(Self::elems_of(a) =~= Self::elems_of(b));
    }

    fn from_elems(e: &Vec<crate::constraint_system::Element>) -> (r: Option<Vec<u8>>) {
        let ghost row = e@.map_values(|x: crate::constraint_system::Element| x@);
        if e.len() == 1 {
            match &e[0] {
                crate::constraint_system::Element::Str(s) => {
                    if s.len() == 32 {
                        let v = crate::builtins::str::clone_bytes(s);
                        proof {
                            assert(Self::elems_of(v) =~= row);
                        }
                        return Some(v);
                    }
                },
                _ => {},
            }
        }
        proof {
            assert(!Self::elems_ok(row));
        }
        None
    }
}

} // verus!
