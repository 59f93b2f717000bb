use vstd::prelude::*;
use crate::constraint_system::{ConstraintSystem, TraceEntry};
use crate::errors::Error;

verus! {

/// How an id was brought into being.
#[derive(Clone, Copy, PartialEq, Eq, Structural, Debug)]
pub enum AllocationMode {
    /// Supplied on the initial stack, before anything else is allocated.
    ProgramInput,
    /// Produced on the stack by the subprogram recorded just before.
    FunctionOutput,
    /// Re-emitted as a literal push.
    Constant,
    /// Untrusted advice, loaded on demand from the hint region.
    Hint,
}

/// The core functionality common to high-level variables: a handle that
/// carries one or more memory ids together with a native mirror value.
pub trait BVar: Sized {
    /// The native value this variable mirrors.
    type Value;

    /// The assigned memory ids, in stack order, deepest first.
    spec fn ids(&self) -> Seq<usize>;

    /// The native mirror value.
    spec fn native(&self) -> Self::Value;

    /// The handle is consistent with the system: its ids are allocated and
    /// the memory under them spells its native value.
    spec fn wf_in(&self, cs: &ConstraintSystem) -> bool;

    /// The fixed footprint on the stack.
    spec fn spec_length() -> nat;

    /// The assigned stack element indices, deepest first.
    fn variables(&self) -> (r: Vec<usize>)
        ensures
            r@ == self.ids(),
    ;

    /// The footprint, as the number of stack elements the value occupies.
    fn length() -> (r: usize)
        ensures
            r == Self::spec_length(),
    ;

    /// A consistent handle's ids all lie inside the system's memory.
    proof fn ids_in_range(&self, cs: &ConstraintSystem)
        requires
            self.wf_in(cs),
        ensures
            forall|k: int| 0 <= k < self.ids().len() ==> #[trigger] self.ids()[k] < cs.memory@.len(),
    ;

    /// Consistency with a system survives any extension of its memory.
    proof fn wf_monotone(&self, cs1: &ConstraintSystem, cs2: &ConstraintSystem)
        requires
            self.wf_in(cs1),
            cs1.memory@.len() <= cs2.memory@.len(),
            forall|i: int|
                0 <= i < cs1.memory@.len() ==> #[trigger] cs2.memory@[i]@ == cs1.memory@[i]@,
        ensures
            self.wf_in(cs2),
    ;
}

/// Allocation of fresh variables inside a constraint system.
pub trait AllocVar: BVar {
    /// The values a fresh variable of this type may hold.
    spec fn valid_value(data: Self::Value) -> bool;

    /// When two native values agree: plain equality for scalar values,
    /// content equality for buffers.
    spec fn value_matches(a: Self::Value, b: Self::Value) -> bool;

    /// Allocates a fresh variable holding `data` in the given mode: one
    /// memory id per stack element of the footprint, in ascending order.
    fn new_variable(cs: &mut ConstraintSystem, data: Self::Value, mode: AllocationMode) -> (r:
        Result<Self, Error>)
        requires
            Self::valid_value(data),
        ensures
            old(cs).alloc_refused(mode) ==> r is Err && *final(cs) == *old(cs),
            r is Err ==> *final(cs) == *old(cs),
            !old(cs).alloc_refused(mode) ==> r is Ok,
            r matches Ok(v) ==> {
                &&& !old(cs).alloc_refused(mode)
                &&& Self::value_matches(v.native(), data)
                &&& v.wf_in(&*final(cs))
                &&& v.ids().len() == Self::spec_length()
                &&& (forall|k: int|
                    0 <= k < v.ids().len() ==> #[trigger] v.ids()[k] == old(cs).memory@.len() + k)
                &&& final(cs).memory@.len() == old(cs).memory@.len() + Self::spec_length()
                &&& forall|i: int|
                    0 <= i < old(cs).memory@.len() ==> #[trigger] final(cs).memory@[i]@ == old(
                        cs,
                    ).memory@[i]@
                &&& final(cs).finalized == old(cs).finalized
                &&& final(cs).trace@ == old(cs).trace@ + alloc_entries(
                    mode,
                    old(cs).memory@.len() as int,
                    Self::spec_length(),
                )
                &&& (mode == AllocationMode::ProgramInput ==> final(cs).num_inputs == old(
                    cs,
                ).num_inputs)
                &&& old(cs).wf() ==> final(cs).wf()
            },
    ;

    /// Allocates a re-emitted literal.
    fn new_constant(cs: &mut ConstraintSystem, data: Self::Value) -> (r: Result<Self, Error>)
        requires
            Self::valid_value(data),
        ensures
            old(cs).alloc_refused(AllocationMode::Constant) ==> r is Err && *final(cs) == *old(cs),
            r is Err ==> *final(cs) == *old(cs),
            !old(cs).alloc_refused(AllocationMode::Constant) ==> r is Ok,
            r matches Ok(v) ==> {
                &&& !old(cs).alloc_refused(AllocationMode::Constant)
                &&& Self::value_matches(v.native(), data)
                &&& v.wf_in(&*final(cs))
                &&& v.ids().len() == Self::spec_length()
                &&& (forall|k: int|
                    0 <= k < v.ids().len() ==> #[trigger] v.ids()[k] == old(cs).memory@.len() + k)
                &&& final(cs).memory@.len() == old(cs).memory@.len() + Self::spec_length()
                &&& forall|i: int|
                    0 <= i < old(cs).memory@.len() ==> #[trigger] final(cs).memory@[i]@ == old(
                        cs,
                    ).memory@[i]@
                &&& final(cs).finalized == old(cs).finalized
                &&& final(cs).trace@ == old(cs).trace@ + alloc_entries(
                    AllocationMode::Constant,
                    old(cs).memory@.len() as int,
                    Self::spec_length(),
                )
                &&& old(cs).wf() ==> final(cs).wf()
            },
    {
        Self::new_variable(cs, data, AllocationMode::Constant)
    }

    /// Allocates a value supplied on the initial stack.
    fn new_program_input(cs: &mut ConstraintSystem, data: Self::Value) -> (r: Result<Self, Error>)
        requires
            Self::valid_value(data),
        ensures
            old(cs).alloc_refused(AllocationMode::ProgramInput) ==> r is Err && *final(cs) == *old(
                cs,
            ),
            r is Err ==> *final(cs) == *old(cs),
            !old(cs).alloc_refused(AllocationMode::ProgramInput) ==> r is Ok,
            r matches Ok(v) ==> {
                &&& !old(cs).alloc_refused(AllocationMode::ProgramInput)
                &&& Self::value_matches(v.native(), data)
                &&& v.wf_in(&*final(cs))
                &&& v.ids().len() == Self::spec_length()
                &&& (forall|k: int|
                    0 <= k < v.ids().len() ==> #[trigger] v.ids()[k] == old(cs).memory@.len() + k)
                &&& final(cs).memory@.len() == old(cs).memory@.len() + Self::spec_length()
                &&& forall|i: int|
                    0 <= i < old(cs).memory@.len() ==> #[trigger] final(cs).memory@[i]@ == old(
                        cs,
                    ).memory@[i]@
                &&& final(cs).finalized == old(cs).finalized
                &&& final(cs).trace@ == old(cs).trace@ + alloc_entries(
                    AllocationMode::ProgramInput,
                    old(cs).memory@.len() as int,
                    Self::spec_length(),
                )
                &&& old(cs).wf() ==> final(cs).wf()
            },
    {
        Self::new_variable(cs, data, AllocationMode::ProgramInput)
    }

    /// Allocates a result a subprogram has just produced.
    fn new_function_output(cs: &mut ConstraintSystem, data: Self::Value) -> (r: Result<Self, Error>)
        requires
            Self::valid_value(data),
        ensures
            old(cs).alloc_refused(AllocationMode::FunctionOutput) ==> r is Err && *final(cs)
                == *old(cs),
            r is Err ==> *final(cs) == *old(cs),
            !old(cs).alloc_refused(AllocationMode::FunctionOutput) ==> r is Ok,
            r matches Ok(v) ==> {
                &&& !old(cs).alloc_refused(AllocationMode::FunctionOutput)
                &&& Self::value_matches(v.native(), data)
                &&& v.wf_in(&*final(cs))
                &&& v.ids().len() == Self::spec_length()
                &&& (forall|k: int|
                    0 <= k < v.ids().len() ==> #[trigger] v.ids()[k] == old(cs).memory@.len() + k)
                &&& final(cs).memory@.len() == old(cs).memory@.len() + Self::spec_length()
                &&& forall|i: int|
                    0 <= i < old(cs).memory@.len() ==> #[trigger] final(cs).memory@[i]@ == old(
                        cs,
                    ).memory@[i]@
                &&& final(cs).finalized == old(cs).finalized
                &&& final(cs).trace@ == old(cs).trace@ + alloc_entries(
                    AllocationMode::FunctionOutput,
                    old(cs).memory@.len() as int,
                    Self::spec_length(),
                )
                &&& old(cs).wf() ==> final(cs).wf()
            },
    {
        Self::new_variable(cs, data, AllocationMode::FunctionOutput)
    }

    /// Allocates an untrusted hint.
    fn new_hint(cs: &mut ConstraintSystem, data: Self::Value) -> (r: Result<Self, Error>)
        requires
            Self::valid_value(data),
        ensures
            old(cs).alloc_refused(AllocationMode::Hint) ==> r is Err && *final(cs) == *old(cs),
            r is Err ==> *final(cs) == *old(cs),
            !old(cs).alloc_refused(AllocationMode::Hint) ==> r is Ok,
            r matches Ok(v) ==> {
                &&& !old(cs).alloc_refused(AllocationMode::Hint)
                &&& Self::value_matches(v.native(), data)
                &&& v.wf_in(&*final(cs))
                &&& v.ids().len() == Self::spec_length()
                &&& (forall|k: int|
                    0 <= k < v.ids().len() ==> #[trigger] v.ids()[k] == old(cs).memory@.len() + k)
                &&& final(cs).memory@.len() == old(cs).memory@.len() + Self::spec_length()
                &&& forall|i: int|
                    0 <= i < old(cs).memory@.len() ==> #[trigger] final(cs).memory@[i]@ == old(
                        cs,
                    ).memory@[i]@
                &&& final(cs).finalized == old(cs).finalized
                &&& final(cs).trace@ == old(cs).trace@ + alloc_entries(
                    AllocationMode::Hint,
                    old(cs).memory@.len() as int,
                    Self::spec_length(),
                )
                &&& old(cs).wf() ==> final(cs).wf()
            },
    {
        Self::new_variable(cs, data, AllocationMode::Hint)
    }
}

/// A variable kind the log-data memory can store and hand back: its
/// native value and the plain elements its stack slots hold determine
/// one another.
pub trait StoredVar: AllocVar {
    /// The elements a value of this kind occupies on the stack, in id
    /// order.
    spec fn elems_of(v: Self::Value) -> Seq<crate::constraint_system::ElemV>;

    /// The element rows this kind can take back.
    spec fn elems_ok(e: Seq<crate::constraint_system::ElemV>) -> bool;

    /// A well-formed variable's memory slots hold exactly the elements
    /// of its native value, and its footprint fits one fold.
    proof fn wf_elems(&self, cs: &ConstraintSystem)
        requires
            self.wf_in(cs),
        ensures
            self.ids().map_values(|id: usize| cs.memory@[id as int]@) == Self::elems_of(
                self.native(),
            ),
            1 <= self.ids().len() <= 0xffff,
    ;

    /// A valid value's element row can always be taken back.
    proof fn elems_of_ok(v: Self::Value)
        requires
            Self::valid_value(v),
        ensures
            Self::elems_ok(Self::elems_of(v)),
    ;

    /// Matching values occupy the same elements.
    proof fn elems_of_matches(a: Self::Value, b: Self::Value)
        requires
            Self::value_matches(a, b),
        ensures
            Self::elems_of(a) == Self::elems_of(b),
    ;

    /// Parses a stored element row back into a value of this kind.
    fn from_elems(e: &Vec<crate::constraint_system::Element>) -> (r: Option<Self::Value>)
        ensures
            r is Some <==> Self::elems_ok(
                e@.map_values(|x: crate::constraint_system::Element| x@),
            ),
            r matches Some(v) ==> Self::valid_value(v) && Self::elems_of(v) == e@.map_values(
                |x: crate::constraint_system::Element| x@,
            ),
    ;
}

/// The trace entries that allocating `n` fresh ids in a mode appends.
pub open spec fn alloc_entries(mode: AllocationMode, base: int, n: nat) -> Seq<TraceEntry> {
    if mode == AllocationMode::ProgramInput {
        seq![]
    } else {
        Seq::new(
            n,
            |k: int| match mode {
                AllocationMode::Constant => TraceEntry::DeclareConstant((base + k) as usize),
                AllocationMode::Hint => TraceEntry::RequestHint((base + k) as usize),
                _ => TraceEntry::DeclareOutput((base + k) as usize),
            },
        )
    }
}

/// The common shape of one recorded operation: a single emitted
/// subprogram whose operands are `inputs`, followed by the declaration of
/// its freshly allocated outputs.
pub open spec fn recorded_op(
    o: ConstraintSystem,
    n: ConstraintSystem,
    inputs: Seq<usize>,
    outs: Seq<usize>,
) -> bool {
    &&& n.memory@.len() == o.memory@.len() + outs.len()
    &&& (forall|i: int|
        0 <= i < o.memory@.len() ==> #[trigger] n.memory@[i]@ == o.memory@[i]@)
    &&& (forall|k: int| 0 <= k < outs.len() ==> #[trigger] outs[k] == o.memory@.len() + k)
    &&& n.finalized == false
    &&& n.trace@.len() == o.trace@.len() + 1 + outs.len()
    &&& n.trace@.subrange(0, o.trace@.len() as int) == o.trace@
    &&& (n.trace@[o.trace@.len() as int] matches TraceEntry::InsertScript(_, idxs, _) && idxs@
        == inputs)
    &&& (forall|k: int|
        0 <= k < outs.len() ==> #[trigger] n.trace@[o.trace@.len() as int + 1 + k]
            == TraceEntry::DeclareOutput(outs[k]))
}

/// The recorded-operation shape with the emitted snippet pinned: the
/// one recorded subprogram carries exactly these bytes.
pub open spec fn recorded_op_bytes(
    o: ConstraintSystem,
    n: ConstraintSystem,
    bytes: Seq<u8>,
    inputs: Seq<usize>,
    outs: Seq<usize>,
) -> bool {
    &&& recorded_op(o, n, inputs, outs)
    &&& (n.trace@[o.trace@.len() as int] matches TraceEntry::InsertScript(g, _, _)
        && g matches crate::script_generator::ScriptGenerator::Simple(sn) && sn@ == bytes)
}

/// The recorded-operation shape of a two-operand, one-output step.
pub proof fn lemma_recorded_single(
    o: ConstraintSystem,
    n: ConstraintSystem,
    inputs: Seq<usize>,
    out: usize,
)
    requires
        n.trace@.len() == o.trace@.len() + 2,
        n.memory@.len() == o.memory@.len() + 1,
        out == o.memory@.len(),
        forall|i: int| 0 <= i < o.memory@.len() ==> #[trigger] n.memory@[i]@ == o.memory@[i]@,
        n.finalized == false,
        n.trace@.subrange(0, o.trace@.len() as int) == o.trace@,
        n.trace@[o.trace@.len() as int] matches TraceEntry::InsertScript(_, idxs, _) && idxs@
            == inputs,
        n.trace@[o.trace@.len() as int + 1] == TraceEntry::DeclareOutput(out),
    ensures
        recorded_op(o, n, inputs, seq![out]),
{
}

} // verus!
