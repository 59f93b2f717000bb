use vstd::prelude::*;

pub mod builtins;
pub mod bvar;
pub mod compiler;
pub mod constraint_system;
pub mod data_type;
pub mod dsl;
pub mod errors;
pub mod functions;
pub mod ldm;
pub mod options;
pub mod script;
pub mod script_generator;
pub mod stack;

verus! {

use crate::builtins::hash::elem_bytes;
use crate::compiler::{compile_ok, outputs_of, Compiler};
use crate::constraint_system::{ConstraintSystem, Element, TraceEntry};
use crate::errors::Error;
use crate::script::scriptnum_encode;

/// The encoded byte form of the declared program outputs, in trace
/// order: what a conforming executor leaves for the caller.
pub open spec fn output_bytes(cs: ConstraintSystem) -> Seq<Seq<u8>> {
    outputs_of(cs.trace@).map_values(|id: usize| elem_bytes(cs.memory@[id as int]@))
}

/// The byte encoding of one element, as it appears on the stack.
pub fn encode_element(e: &Element) -> (r: Vec<u8>)
    ensures
        r@ == elem_bytes(e@),
{
    match e {
        Element::Num(v) => scriptnum_encode(*v as i64),
        Element::Str(s) => crate::builtins::str::clone_bytes(s),
    }
}

/// Compiles a recorded system and checks that its declared outputs spell
/// the expected stack: the program compiles, and the encoded output
/// elements equal the expected byte strings, entry for entry.
pub fn test_program(cs: &ConstraintSystem, expected_stack: &Vec<Vec<u8>>) -> (r: Result<(), Error>)
    ensures
        r is Ok <==> compile_ok(*cs) && expected_stack@.map_values(|v: Vec<u8>| v@)
            == output_bytes(*cs),
{
    let _program = Compiler::compile(cs)?;
    let mut outs: Vec<Vec<u8>> = Vec::new();
    let ghost tr = cs.trace@;
    let mut k: usize = 0;
    proof {
        assert(outputs_of(tr.subrange(0, 0)) =~= Seq::<usize>::empty());
    }
    while k < cs.trace.len()
        invariant
            0 <= k <= tr.len(),
            tr == cs.trace@,
            outs@.len() == outputs_of(tr.subrange(0, k as int)).len(),
            forall|d: int|
                0 <= d < outs@.len() ==> (#[trigger] outs@[d])@ == elem_bytes(
                    cs.memory@[outputs_of(tr.subrange(0, k as int))[d] as int]@,
                ),
        decreases tr.len() - k,
    {
        let ghost pre = tr.subrange(0, k as int);
        let ghost post = tr.subrange(0, k + 1);
        proof {
            assert(post.drop_last() =~= pre);
            assert(post.last() == tr[k as int]);
        }
        match &cs.trace[k] {
            TraceEntry::SystemOutput(idx) => {
                let idx = *idx;
                if idx >= cs.memory.len() {
                    proof {
                        crate::compiler::lemma_outputs_unreachable(*cs, k as int);
                    }
                    return Err(Error::MemoryCorruption);
                }
                let bytes = encode_element(&cs.memory[idx]);
                let ghost pre_outs = outs@;
                outs.push(bytes);
                proof {
                    assert(outputs_of(post) =~= outputs_of(pre) + seq![idx]);
                    assert(forall|d: int|
                        0 <= d < pre_outs.len() ==> outputs_of(post)[d] == #[trigger] outputs_of(
                            pre,
                        )[d]);
                }
            },
            _ => {
                proof {
                    assert(outputs_of(post) =~= outputs_of(pre));
                }
            },
        }
        k = k + 1;
    }
    proof {
        assert(tr.subrange(0, tr.len() as int) =~= tr);
    }
    if outs.len() != expected_stack.len() {
        proof {
            assert(expected_stack@.map_values(|v: Vec<u8>| v@).len() != output_bytes(*cs).len());
        }
        return Err(Error::TypeMismatch);
    }
    let mut i: usize = 0;
    while i < outs.len()
        invariant
            0 <= i <= outs@.len(),
            tr == cs.trace@,
            outs@.len() == expected_stack@.len(),
            outs@.len() == outputs_of(tr).len(),
            forall|d: int|
                0 <= d < outs@.len() ==> (#[trigger] outs@[d])@ == elem_bytes(
                    cs.memory@[outputs_of(tr)[d] as int]@,
                ),
            forall|d: int|
                0 <= d < i ==> (#[trigger] expected_stack@[d])@ == outs@[d]@,
        decreases outs@.len() - i,
    {
        if !crate::builtins::channel::bytes_eq(&expected_stack[i], &outs[i]) {
            proof {
                assert(expected_stack@.map_values(|v: Vec<u8>| v@)[i as int] != output_bytes(
                    *cs,
                )[i as int]);
            }
            return Err(Error::TypeMismatch);
        }
        i = i + 1;
    }
    proof {
        assert(expected_stack@.map_values(|v: Vec<u8>| v@) =~= output_bytes(*cs));
    }
    Ok(())
}

/// The same output check for builds that avoid the concatenation
/// opcode: the planner's output is identical either way.
pub fn test_program_without_opcat(cs: &ConstraintSystem, expected_stack: &Vec<Vec<u8>>) -> (r:
    Result<(), Error>)
    ensures
        r is Ok <==> compile_ok(*cs) && expected_stack@.map_values(|v: Vec<u8>| v@)
            == output_bytes(*cs),
{
    test_program(cs, expected_stack)
}

} // verus!
