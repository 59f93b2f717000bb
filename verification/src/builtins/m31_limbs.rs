use vstd::prelude::*;
use crate::builtins::m31::M31Var;
use crate::builtins::table::m31::{recompose_snippet, M31LimbsGadget};
use crate::builtins::table::utils::{
    convert_m31_to_limbs, lemma_limbs_of_val, limb_ints, limbs_val, limbs_val_from, M31_MODULUS,
};
use crate::builtins::table::TableVar;
use crate::bvar::{AllocVar, AllocationMode, BVar};
use crate::constraint_system::{ConstraintSystem, ElemV, Element};
use crate::errors::Error;
use crate::options::Options;
use crate::script::{emit_all, emit_op, OP_EQUALVERIFY, OP_ROT, OP_ROLL};
use crate::script_generator::ComplexGadget;

verus! {

/// A variable holding the four-limb decomposition of an M31 element,
/// least significant limb deepest.  A freshly decomposed value has byte
/// limbs; the plain limb sum may carry up to one extra bit per limb.
pub struct M31LimbsVar {
    pub variables: [usize; 4],
    pub value: [u32; 4],
}

impl M31LimbsVar {
    /// The recomposed value of the limbs.
    pub open spec fn limbs_value(&self) -> int {
        limbs_val(limb_ints(self.value@))
    }

    /// The limbs are the canonical byte decomposition of a reduced
    /// field element.
    pub open spec fn canonical(&self) -> bool {
        &&& forall|k: int| 0 <= k < 4 ==> #[trigger] self.value@[k] < 256
        &&& self.limbs_value() < M31_MODULUS
    }
}

impl BVar for M31LimbsVar {
    type Value = [u32; 4];

    open spec fn ids(&self) -> Seq<usize> {
        self.variables@
    }

    open spec fn native(&self) -> [u32; 4] {
        self.value
    }

    open spec fn wf_in(&self, cs: &ConstraintSystem) -> bool {
        &&& forall|k: int| 0 <= k < 4 ==> #[trigger] self.variables@[k] < cs.memory@.len()
        &&& forall|k: int|
            0 <= k < 4 ==> (#[trigger] cs.memory@[self.variables@[k] as int]@) == ElemV::Num(
                self.value@[k] as int,
            )
        &&& forall|k: int| 0 <= k < 4 ==> #[trigger] self.value@[k] < 512
    }

    open spec fn spec_length() -> nat {
        4
    }

    fn variables(&self) -> (r: Vec<usize>) {
        let mut v: Vec<usize> = Vec::new();
        v.push(self.variables[0]);
        v.push(self.variables[1]);
        v.push(self.variables[2]);
        v.push(self.variables[3]);
        proof {
            assert(v@ =~= self.ids());
        }
        v
    }

    fn length() -> (r: usize) {
        4
    }

    proof fn ids_in_range(&self, cs: &ConstraintSystem) {
    }

    proof fn wf_monotone(&self, cs1: &ConstraintSystem, cs2: &ConstraintSystem) {
    }
}

impl AllocVar for M31LimbsVar {
    open spec fn valid_value(data: [u32; 4]) -> bool {
        forall|k: int| 0 <= k < 4 ==> #[trigger] data@[k] < 512
    }

    open spec fn value_matches(a: [u32; 4], b: [u32; 4]) -> bool {
        a@ == b@
    }

    fn new_variable(cs: &mut ConstraintSystem, data: [u32; 4], mode: AllocationMode) -> (r: Result<
        M31LimbsVar,
        Error,
    >) {
        let v0 = cs.allocate(Element::Num(data[0] as i32), mode)?;
        let v1 = match cs.allocate(Element::Num(data[1] as i32), mode) {
            Ok(v) => v,
            Err(e) => {
                proof {
                    assert(false);
                }
                return Err(e);
            },
        };
        let v2 = match cs.allocate(Element::Num(data[2] as i32), mode) {
            Ok(v) => v,
            Err(e) => {
                proof {
                    assert(false);
                }
                return Err(e);
            },
        };
        let v3 = match cs.allocate(Element::Num(data[3] as i32), mode) {
            Ok(v) => v,
            Err(e) => {
                proof {
                    assert(false);
                }
                return Err(e);
            },
        };
        let r = M31LimbsVar { variables: [v0, v1, v2, v3], value: data };
        proof {
            assert(M31LimbsVar::value_matches(r.native(), data));
            assert(r.ids() =~= seq![v0, v1, v2, v3]);
            assert(final(cs).trace@ =~= old(cs).trace@ + crate::bvar::alloc_entries(
                mode,
                old(cs).memory@.len() as int,
                4nat,
            ));
        }
        Ok(r)
    }
}

impl M31LimbsVar {
    /// The native limb values assigned to this variable.
    pub fn value(&self) -> (r: [u32; 4])
        ensures
            r@ == self.native()@,
    {
        self.value
    }

    /// Decomposes a reduced field variable into four byte-limb hints and
    /// records the verifier that recomposes them and checks the result
    /// against the source lane.
    pub fn from_m31(cs: &mut ConstraintSystem, v: &M31Var) -> (r: Result<M31LimbsVar, Error>)
        requires
            v.wf_in(old(cs)),
            old(cs).wf(),
        ensures
            r is Ok <==> !old(cs).finalized,
            r is Err ==> *final(cs) == *old(cs),
            r matches Ok(lv) ==> {
                &&& lv.canonical()
                &&& lv.limbs_value() == v.value
                &&& final(cs).trace@.len() == old(cs).trace@.len() + 5
                &&& final(cs).trace@.subrange(0, old(cs).trace@.len() as int) == old(cs).trace@
                &&& (forall|k: int|
                    0 <= k < 4 ==> #[trigger] final(cs).trace@[old(cs).trace@.len() + k]
                        == crate::constraint_system::TraceEntry::RequestHint(lv.variables@[k]))
                &&& (final(cs).trace@.last()
                    matches crate::constraint_system::TraceEntry::InsertScript(g, ins, _)
                    && g matches crate::script_generator::ScriptGenerator::Simple(sn) && sn@
                    == crate::builtins::table::m31::recompose_bytes() + seq![OP_EQUALVERIFY]
                    && ins@ == seq![v.variable] + lv.ids())
                &&& lv.wf_in(&*final(cs))
                &&& final(cs).wf()
                &&& final(cs).finalized == false
                &&& old(cs).memory@.len() <= final(cs).memory@.len()
                &&& forall|i: int|
                    0 <= i < old(cs).memory@.len() ==> #[trigger] final(cs).memory@[i]@ == old(
                        cs,
                    ).memory@[i]@
            },
    {
        if cs.finalized {
            return Err(Error::FinalizedMutation);
        }
        let limbs = convert_m31_to_limbs(v.value);
        proof {
            lemma_limbs_of_val(v.value);
        }
        let lv = match M31LimbsVar::new_hint(cs, limbs) {
            Ok(x) => x,
            Err(e) => {
                proof {
                    assert(false);
                }
                return Err(e);
            },
        };
        let mut snippet: Vec<u8> = Vec::new();
        let rec = recompose_snippet();
        emit_all(&mut snippet, &rec);
        emit_op(&mut snippet, OP_EQUALVERIFY);
        let mut inputs: Vec<usize> = Vec::new();
        inputs.push(v.variable);
        inputs.push(lv.variables[0]);
        inputs.push(lv.variables[1]);
        inputs.push(lv.variables[2]);
        inputs.push(lv.variables[3]);
        let ghost inputs_view = inputs@;
        let ghost snippet_view = snippet@;
        let ghost t1 = *cs;
        match cs.insert_script(snippet, inputs) {
            Ok(_) => {},
            Err(e) => {
                proof {
                    assert(false);
                }
                return Err(e);
            },
        }
        proof {
            let base = old(cs).trace@.len() as int;
            assert(snippet_view =~= crate::builtins::table::m31::recompose_bytes() + seq![
                OP_EQUALVERIFY,
            ]);
            assert(inputs_view =~= seq![v.variable] + lv.ids());
            assert(final(cs).trace@.subrange(0, base) =~= old(cs).trace@);
            assert forall|k: int|
                0 <= k < 4 implies #[trigger] final(cs).trace@[base + k]
                == crate::constraint_system::TraceEntry::RequestHint(lv.variables@[k]) by {
                assert(final(cs).trace@[base + k] == t1.trace@[base + k]);
                assert(t1.trace@[base + k] == crate::bvar::alloc_entries(
                    AllocationMode::Hint,
                    old(cs).memory@.len() as int,
                    4nat,
                )[k]);
            }
        }
        Ok(lv)
    }

    /// Records the plain limb-wise sum of two byte-limb operands: no
    /// carries, no reduction.
    pub fn add(&self, cs: &mut ConstraintSystem, rhs: &M31LimbsVar) -> (r: Result<
        M31LimbsVar,
        Error,
    >)
        requires
            self.wf_in(old(cs)),
            rhs.wf_in(old(cs)),
            old(cs).wf(),
            forall|k: int| 0 <= k < 4 ==> #[trigger] self.value@[k] < 256,
            forall|k: int| 0 <= k < 4 ==> #[trigger] rhs.value@[k] < 256,
        ensures
            r is Ok <==> !old(cs).finalized,
            r is Err ==> *final(cs) == *old(cs),
            r matches Ok(v) ==> {
                &&& (forall|k: int|
                    0 <= k < 4 ==> #[trigger] v.value@[k] == self.value@[k] + rhs.value@[k])
                &&& v.wf_in(&*final(cs))
                &&& final(cs).wf()
                &&& final(cs).finalized == false
                &&& old(cs).memory@.len() <= final(cs).memory@.len()
                &&& forall|i: int|
                    0 <= i < old(cs).memory@.len() ==> #[trigger] final(cs).memory@[i]@ == old(
                        cs,
                    ).memory@[i]@
            },
    {
        if cs.finalized {
            return Err(Error::FinalizedMutation);
        }
        let sums = [
            self.value[0] + rhs.value[0],
            self.value[1] + rhs.value[1],
            self.value[2] + rhs.value[2],
            self.value[3] + rhs.value[3],
        ];
        let snippet = M31LimbsGadget::add_limbs();
        let mut inputs: Vec<usize> = Vec::new();
        inputs.push(self.variables[0]);
        inputs.push(self.variables[1]);
        inputs.push(self.variables[2]);
        inputs.push(self.variables[3]);
        inputs.push(rhs.variables[0]);
        inputs.push(rhs.variables[1]);
        inputs.push(rhs.variables[2]);
        inputs.push(rhs.variables[3]);
        match cs.insert_script(snippet, inputs) {
            Ok(_) => {},
            Err(e) => {
                proof {
                    assert(false);
                }
                return Err(e);
            },
        }
        let v = match M31LimbsVar::new_function_output(cs, sums) {
            Ok(x) => x,
            Err(e) => {
                proof {
                    assert(false);
                }
                return Err(e);
            },
        };
        Ok(v)
    }

    /// Records the table-backed multiplication of two byte-limb
    /// operands: the depth-dependent snippet is resolved by the planner
    /// against the table's position and reads every partial product from
    /// the quarter-square table.
    pub fn mul(
        &self,
        cs: &mut ConstraintSystem,
        table: &TableVar,
        rhs: &M31LimbsVar,
    ) -> (r: Result<M31Var, Error>)
        requires
            self.wf_in(old(cs)),
            rhs.wf_in(old(cs)),
            table.wf_in(old(cs)),
            old(cs).wf(),
            forall|k: int| 0 <= k < 4 ==> #[trigger] self.value@[k] < 256,
            forall|k: int| 0 <= k < 4 ==> #[trigger] rhs.value@[k] < 256,
        ensures
            r is Ok <==> !old(cs).finalized && table.ref_ok(),
            r matches Ok(v) ==> {
                &&& v.value == (self.limbs_value() * rhs.limbs_value()) % (M31_MODULUS as int)
                &&& v.wf_in(&*final(cs))
                &&& final(cs).wf()
                &&& final(cs).finalized == false
                &&& old(cs).memory@.len() <= final(cs).memory@.len()
                &&& forall|i: int|
                    0 <= i < old(cs).memory@.len() ==> #[trigger] final(cs).memory@[i]@ == old(
                        cs,
                    ).memory@[i]@
            },
    {
        if cs.finalized {
            return Err(Error::FinalizedMutation);
        }
        proof {
            assert(forall|k: int| 0 <= k < 4 ==> #[trigger] self.value@[k] < 512);
            assert(forall|k: int| 0 <= k < 4 ==> #[trigger] rhs.value@[k] < 512);
        }
        let va: u64 = (self.value[0] as u64) + 256 * (self.value[1] as u64) + 65536 * (
        self.value[2] as u64) + 16777216 * (self.value[3] as u64);
        let vb: u64 = (rhs.value[0] as u64) + 256 * (rhs.value[1] as u64) + 65536 * (
        rhs.value[2] as u64) + 16777216 * (rhs.value[3] as u64);
        proof {
            reveal_with_fuel(limbs_val_from, 6);
            assert(limb_ints(self.value@) =~= seq![
                self.value@[0] as int,
                self.value@[1] as int,
                self.value@[2] as int,
                self.value@[3] as int,
            ]);
            assert(limb_ints(rhs.value@) =~= seq![
                rhs.value@[0] as int,
                rhs.value@[1] as int,
                rhs.value@[2] as int,
                rhs.value@[3] as int,
            ]);
            assert(va == self.limbs_value());
            assert(vb == rhs.limbs_value());
        }
        proof {
            assert((va as int) * (vb as int) < 0x100_0000_0000_0000_0000) by (nonlinear_arith)
                requires
                    va < 0x10_0000_0000u64,
                    vb < 0x10_0000_0000u64,
            ;
        }
        let prod: u128 = (va as u128) * (vb as u128);
        let rem: u32 = (prod % (M31_MODULUS as u128)) as u32;
        if table.variables[0] > (u32::MAX as usize) {
            return Err(Error::Overflow);
        }
        let table_ref = table.variables[0] as u32;
        let options = Options::new().with_u32("table_ref", table_ref);
        let mut inputs: Vec<usize> = Vec::new();
        inputs.push(self.variables[0]);
        inputs.push(self.variables[1]);
        inputs.push(self.variables[2]);
        inputs.push(self.variables[3]);
        inputs.push(rhs.variables[0]);
        inputs.push(rhs.variables[1]);
        inputs.push(rhs.variables[2]);
        inputs.push(rhs.variables[3]);
        match cs.insert_script_complex(ComplexGadget::M31LimbsMul, inputs, options) {
            Ok(_) => {},
            Err(e) => {
                proof {
                    assert(false);
                }
                return Err(e);
            },
        }
        let v = match M31Var::new_function_output(cs, rem) {
            Ok(x) => x,
            Err(e) => {
                proof {
                    assert(false);
                }
                return Err(e);
            },
        };
        Ok(v)
    }

    /// Records the verifier that two limb operands are equal, limb by
    /// limb.
    pub fn equalverify(&self, cs: &mut ConstraintSystem, rhs: &M31LimbsVar) -> (r: Result<
        (),
        Error,
    >)
        requires
            self.wf_in(old(cs)),
            rhs.wf_in(old(cs)),
            old(cs).wf(),
            self.value@ == rhs.value@,
        ensures
            r is Ok <==> !old(cs).finalized,
            r is Err ==> *final(cs) == *old(cs),
            r is Ok ==> final(cs).wf() && final(cs).memory@ == old(cs).memory@
                && !final(cs).finalized,
    {
        let mut snippet: Vec<u8> = Vec::new();
        crate::script::emit_push_int(&mut snippet, 4);
        emit_op(&mut snippet, OP_ROLL);
        emit_op(&mut snippet, OP_EQUALVERIFY);
        crate::script::emit_push_int(&mut snippet, 3);
        emit_op(&mut snippet, OP_ROLL);
        emit_op(&mut snippet, OP_EQUALVERIFY);
        emit_op(&mut snippet, OP_ROT);
        emit_op(&mut snippet, OP_EQUALVERIFY);
        emit_op(&mut snippet, OP_EQUALVERIFY);
        let mut inputs: Vec<usize> = Vec::new();
        inputs.push(self.variables[0]);
        inputs.push(self.variables[1]);
        inputs.push(self.variables[2]);
        inputs.push(self.variables[3]);
        inputs.push(rhs.variables[0]);
        inputs.push(rhs.variables[1]);
        inputs.push(rhs.variables[2]);
        inputs.push(rhs.variables[3]);
        cs.insert_script(snippet, inputs)?;
        Ok(())
    }
}

} // verus!
verus! {

impl M31LimbsVar {
    /// The inverse by hint through the table multiplier: the chain
    /// result's limbs are allocated as untrusted advice and the program
    /// checks the product against one.  The zero element is refused.
    pub fn inverse(&self, cs: &mut ConstraintSystem, table: &TableVar) -> (r: Result<
        M31LimbsVar,
        Error,
    >)
        requires
            self.wf_in(old(cs)),
            table.wf_in(old(cs)),
            old(cs).wf(),
            self.canonical(),
        ensures
            r is Ok <==> !old(cs).finalized && table.ref_ok() && (self.limbs_value()
                * crate::builtins::table::utils::m31_pow_spec(
                self.limbs_value(),
                (M31_MODULUS - 2) as nat,
            )) % (M31_MODULUS as int) == 1,
            r matches Ok(v) ==> {
                &&& v.canonical()
                &&& v.limbs_value() == crate::builtins::table::utils::m31_pow_spec(
                    self.limbs_value(),
                    (M31_MODULUS - 2) as nat,
                )
                &&& (self.limbs_value() * v.limbs_value()) % (M31_MODULUS as int) == 1
                &&& v.wf_in(&*final(cs))
                &&& final(cs).wf()
                &&& final(cs).finalized == false
                &&& old(cs).memory@.len() <= final(cs).memory@.len()
                &&& forall|i: int|
                    0 <= i < old(cs).memory@.len() ==> #[trigger] final(cs).memory@[i]@ == old(
                        cs,
                    ).memory@[i]@
            },
    {
        if cs.finalized {
            return Err(Error::FinalizedMutation);
        }
        let val = crate::builtins::table::utils::convert_m31_from_limbs(
            self.value.as_slice(),
        );
        let inv = crate::builtins::table::utils::pow2147483645(val);
        let prod = crate::builtins::table::utils::mul_m31(val, inv);
        if prod != 1 {
            return Err(Error::Overflow);
        }
        let inv_limbs = convert_m31_to_limbs(inv);
        proof {
            lemma_limbs_of_val(inv);
        }
        let inv_var = match M31LimbsVar::new_hint(cs, inv_limbs) {
            Ok(v) => v,
            Err(e) => {
                proof {
                    assert(false);
                }
                return Err(e);
            },
        };
        proof {
            assert(inv_var.limbs_value() == inv);
        }
        let expected_one = match self.mul(cs, table, &inv_var) {
            Ok(v) => v,
            Err(e) => {
                return Err(e);
            },
        };
        match expected_one.is_one(cs) {
            Ok(_) => {},
            Err(e) => {
                proof {
                    assert(false);
                }
                return Err(e);
            },
        }
        Ok(inv_var)
    }
}

} // verus!
verus! {

impl M31Var {
    /// The inverse through the table multiplier: the operand is
    /// decomposed into limbs, the limb inverse is verified against one,
    /// and a fresh lane bound to those limbs carries the result.
    pub fn inverse(&self, cs: &mut ConstraintSystem, table: &TableVar) -> (r: Result<
        M31Var,
        Error,
    >)
        requires
            self.wf_in(old(cs)),
            table.wf_in(old(cs)),
            old(cs).wf(),
        ensures
            r is Ok <==> !old(cs).finalized && table.ref_ok() && (self.value
                * crate::builtins::table::utils::m31_pow_spec(
                self.value as int,
                (M31_MODULUS - 2) as nat,
            )) % (M31_MODULUS as int) == 1,
            r matches Ok(v) ==> {
                &&& v.value == crate::builtins::table::utils::m31_pow_spec(
                    self.value as int,
                    (M31_MODULUS - 2) as nat,
                )
                &&& (self.value * v.value) % (M31_MODULUS as int) == 1
                &&& v.wf_in(&*final(cs))
                &&& final(cs).wf()
                &&& final(cs).finalized == false
                &&& old(cs).memory@.len() <= final(cs).memory@.len()
                &&& forall|i: int|
                    0 <= i < old(cs).memory@.len() ==> #[trigger] final(cs).memory@[i]@ == old(
                        cs,
                    ).memory@[i]@
            },
    {
        if cs.finalized {
            return Err(Error::FinalizedMutation);
        }
        let self_limbs = match M31LimbsVar::from_m31(cs, self) {
            Ok(v) => v,
            Err(e) => {
                proof {
                    assert(false);
                }
                return Err(e);
            },
        };
        let inv_limbs = match self_limbs.inverse(cs, table) {
            Ok(v) => v,
            Err(e) => {
                return Err(e);
            },
        };
        let inv_val = crate::builtins::table::utils::pow2147483645(self.value);
        let inv = match M31Var::new_hint(cs, inv_val) {
            Ok(v) => v,
            Err(e) => {
                proof {
                    assert(false);
                }
                return Err(e);
            },
        };
        // bind the fresh lane to the verified limb decomposition
        let mut snippet: Vec<u8> = Vec::new();
        let rec = recompose_snippet();
        emit_all(&mut snippet, &rec);
        emit_op(&mut snippet, OP_EQUALVERIFY);
        let mut inputs: Vec<usize> = Vec::new();
        inputs.push(inv.variable);
        inputs.push(inv_limbs.variables[0]);
        inputs.push(inv_limbs.variables[1]);
        inputs.push(inv_limbs.variables[2]);
        inputs.push(inv_limbs.variables[3]);
        match cs.insert_script(snippet, inputs) {
            Ok(_) => {},
            Err(e) => {
                proof {
                    assert(false);
                }
                return Err(e);
            },
        }
        Ok(inv)
    }
}

} // verus!
verus! {

impl M31Var {
    /// Records the table-backed multiplication of two field lanes: both
    /// are decomposed into limbs and handed to the limb multiplier.
    pub fn mul_by_table(&self, cs: &mut ConstraintSystem, table: &TableVar, rhs: &M31Var) -> (r:
        Result<M31Var, Error>)
        requires
            self.wf_in(old(cs)),
            rhs.wf_in(old(cs)),
            table.wf_in(old(cs)),
            old(cs).wf(),
        ensures
            r is Ok <==> !old(cs).finalized && table.ref_ok(),
            r matches Ok(v) ==> {
                &&& v.value == (self.value * rhs.value) % (M31_MODULUS as int)
                &&& v.wf_in(&*final(cs))
                &&& final(cs).wf()
                &&& final(cs).finalized == false
                &&& old(cs).memory@.len() <= final(cs).memory@.len()
                &&& forall|i: int|
                    0 <= i < old(cs).memory@.len() ==> #[trigger] final(cs).memory@[i]@ == old(
                        cs,
                    ).memory@[i]@
            },
    {
        if cs.finalized {
            return Err(Error::FinalizedMutation);
        }
        let self_limbs = match M31LimbsVar::from_m31(cs, self) {
            Ok(v) => v,
            Err(e) => {
                proof {
                    assert(false);
                }
                return Err(e);
            },
        };
        let rhs_limbs = match M31LimbsVar::from_m31(cs, rhs) {
            Ok(v) => v,
            Err(e) => {
                proof {
                    assert(false);
                }
                return Err(e);
            },
        };
        self_limbs.mul(cs, table, &rhs_limbs)
    }
}


impl crate::bvar::StoredVar for M31LimbsVar {
    open spec fn elems_of(v: [u32; 4]) -> Seq<crate::constraint_system::ElemV> {
        seq![
            crate::constraint_system::ElemV::Num(v[0] as int),
            crate::constraint_system::ElemV::Num(v[1] as int),
            crate::constraint_system::ElemV::Num(v[2] as int),
            crate::constraint_system::ElemV::Num(v[3] as int),
        ]
    }

    open spec fn elems_ok(e: Seq<crate::constraint_system::ElemV>) -> bool {
        e.len() == 4 && (forall|k: int|
            0 <= k < 4 ==> (match #[trigger] e[k] {
                crate::constraint_system::ElemV::Num(n) => 0 <= n < 512,
                crate::constraint_system::ElemV::Str(_) => false,
            }))
    }

    proof fn wf_elems(&self, cs: &ConstraintSystem) {
        assert(self.ids().map_values(|id: usize| cs.memory@[id as int]@) =~= Self::elems_of(
            self.native(),
        ));
    }

    proof fn elems_of_ok(v: [u32; 4]) {
        assert forall|k: int| 0 <= k < 4 implies (match #[trigger] Self::elems_of(v)[k] {
            crate::constraint_system::ElemV::Num(n) => 0 <= n < 512,
            crate::constraint_system::ElemV::Str(_) => false,
        }) by {
            assert(Self::elems_of(v)[0] == crate::constraint_system::ElemV::Num(v[0] as int));
            assert(Self::elems_of(v)[1] == crate::constraint_system::ElemV::Num(v[1] as int));
            assert(Self::elems_of(v)[2] == crate::constraint_system::ElemV::Num(v[2] as int));
            assert(Self::elems_of(v)[3] == crate::constraint_system::ElemV::Num(v[3] as int));
        }
    }

    proof fn elems_of_matches(a: [u32; 4], b: [u32; 4]) {
        assert(a[0] == b[0] && a[1] == b[1] && a[2] == b[2] && a[3] == b[3]);
    }

    fn from_elems(e: &Vec<crate::constraint_system::Element>) -> (r: Option<[u32; 4]>) {
        let ghost row = e@.map_values(|x: crate::constraint_system::Element| x@);
        if e.len() == 4 {
            match (&e[0], &e[1], &e[2], &e[3]) {
                (
                    crate::constraint_system::Element::Num(x0),
                    crate::constraint_system::Element::Num(x1),
                    crate::constraint_system::Element::Num(x2),
                    crate::constraint_system::Element::Num(x3),
                ) => {
                    let x0 = *x0;
                    let x1 = *x1;
                    let x2 = *x2;
                    let x3 = *x3;
                    if x0 >= 0 && x0 < 512 && x1 >= 0 && x1 < 512 && x2 >= 0 && x2 < 512 && x3
                        >= 0 && x3 < 512 {
                        let v: [u32; 4] = [x0 as u32, x1 as u32, x2 as u32, x3 as u32];
                        proof {
                            assert(Self::elems_of(v) =~= row);
                            assert(Self::elems_ok(row));
                        }
                        return Some(v);
                    }
                },
                _ => {},
            }
        }
        proof {
            if Self::elems_ok(row) {
                assert(match row[0] {
                    crate::constraint_system::ElemV::Num(n) => 0 <= n < 512,
                    crate::constraint_system::ElemV::Str(_) => false,
                });
                assert(match row[1] {
                    crate::constraint_system::ElemV::Num(n) => 0 <= n < 512,
                    crate::constraint_system::ElemV::Str(_) => false,
                });
                assert(match row[2] {
                    crate::constraint_system::ElemV::Num(n) => 0 <= n < 512,
                    crate::constraint_system::ElemV::Str(_) => false,
                });
                assert(match row[3] {
                    crate::constraint_system::ElemV::Num(n) => 0 <= n < 512,
                    crate::constraint_system::ElemV::Str(_) => false,
                });
                assert(false);
            }
        }
        None
    }
}

} // verus!
