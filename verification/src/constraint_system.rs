use vstd::prelude::*;
use crate::bvar::AllocationMode;
use crate::errors::Error;
use crate::options::Options;
use crate::script_generator::ScriptGenerator;

verus! {

/// A primitive value stored in memory: a signed 32-bit number lane, or a
/// byte string.
#[derive(Debug)]
pub enum Element {
    Num(i32),
    Str(Vec<u8>),
}

/// The mathematical value of an element.
pub enum ElemV {
    Num(int),
    Str(Seq<u8>),
}

impl View for Element {
    type V = ElemV;

    open spec fn view(&self) -> ElemV {
        match self {
            Element::Num(v) => ElemV::Num(*v as int),
            Element::Str(s) => ElemV::Str(s@),
        }
    }
}

impl Element {
    /// A copy of this element, equal in value.
    pub fn duplicate(&self) -> (r: Element)
        ensures
            r@ == self@,
    {
        match self {
            Element::Num(v) => Element::Num(*v),
            Element::Str(s) => {
                let mut out: Vec<u8> = Vec::new();
                let mut i: usize = 0;
                while i < s.len()
                    invariant
                        0 <= i <= s@.len(),
                        out@ == s@.subrange(0, i as int),
                    decreases s@.len() - i,
                {
                    out.push(s[i]);
                    proof {
                        assert(out@ =~= s@.subrange(0, i + 1));
                    }
                    i = i + 1;
                }
                proof {
                    assert(out@ =~= s@);
                }
                Element::Str(out)
            },
        }
    }
}

/// One elementary recording event.
pub enum TraceEntry {
    /// Bring each input id to the top in order, then splice in the
    /// generator's snippet.
    InsertScript(ScriptGenerator, Vec<usize>, Options),
    /// Emit a literal push of the element at this id.
    DeclareConstant(usize),
    /// No emission: the id's value was just produced by a subprogram.
    DeclareOutput(usize),
    /// Emit the snippet that loads this id from the hint region.
    RequestHint(usize),
    /// Mark this id as a program output.
    SystemOutput(usize),
}

/// Every id that a trace entry mentions lies inside the memory.
pub open spec fn trace_entry_wf(t: TraceEntry, mem_len: nat) -> bool {
    match t {
        TraceEntry::InsertScript(_, inputs, _) => forall|i: int|
            0 <= i < inputs@.len() ==> #[trigger] inputs@[i] < mem_len,
        TraceEntry::DeclareConstant(idx) => idx < mem_len,
        TraceEntry::DeclareOutput(idx) => idx < mem_len,
        TraceEntry::RequestHint(idx) => idx < mem_len,
        TraceEntry::SystemOutput(idx) => idx < mem_len,
    }
}

/// The single-owner constraint system: an append-only memory of typed
/// values addressed by dense integer ids, and the ordered trace of
/// recording events that the planner later consumes.
pub struct ConstraintSystem {
    pub memory: Vec<Element>,
    pub trace: Vec<TraceEntry>,
    pub num_inputs: Option<usize>,
    pub finalized: bool,
}

impl ConstraintSystem {
    /// The invariants of the recording layer: every id in the trace is in
    /// memory, and the sealed input count never exceeds the memory size.
    pub open spec fn wf(&self) -> bool {
        &&& forall|k: int|
            0 <= k < self.trace@.len() ==> trace_entry_wf(
                #[trigger] self.trace@[k],
                self.memory@.len() as nat,
            )
        &&& match self.num_inputs {
            Some(n) => n <= self.memory@.len(),
            None => true,
        }
    }

    /// The trace entry that allocating one id in the given mode appends.
    pub open spec fn alloc_entry(mode: AllocationMode, idx: usize) -> Seq<TraceEntry> {
        match mode {
            AllocationMode::Constant => seq![TraceEntry::DeclareConstant(idx)],
            AllocationMode::Hint => seq![TraceEntry::RequestHint(idx)],
            AllocationMode::FunctionOutput => seq![TraceEntry::DeclareOutput(idx)],
            AllocationMode::ProgramInput => seq![],
        }
    }

    /// Whether an allocation in this mode is refused in the current state.
    pub open spec fn alloc_refused(&self, mode: AllocationMode) -> bool {
        self.finalized || (mode == AllocationMode::ProgramInput && self.num_inputs is Some)
    }

    /// The sealed input count after one allocation in the given mode.
    pub open spec fn num_inputs_after(&self, mode: AllocationMode) -> Option<usize> {
        if mode != AllocationMode::ProgramInput && self.num_inputs is None {
            Some(self.memory@.len() as usize)
        } else {
            self.num_inputs
        }
    }

    /// An empty system: nothing allocated, nothing recorded.
    pub fn new() -> (r: ConstraintSystem)
        ensures
            r.memory@.len() == 0,
            r.trace@.len() == 0,
            r.num_inputs is None,
            !r.finalized,
            r.wf(),
    {
        ConstraintSystem { memory: Vec::new(), trace: Vec::new(), num_inputs: None, finalized: false }
    }

    /// Allocates one element, appends the trace event of its mode, and
    /// returns the fresh id.  Inputs may only be allocated while nothing
    /// else has been; nothing may be allocated once finalized.
    pub fn allocate(&mut self, data: Element, mode: AllocationMode) -> (r: Result<usize, Error>)
        ensures
            old(self).alloc_refused(mode) ==> r == Err::<usize, Error>(
                if old(self).finalized {
                    Error::FinalizedMutation
                } else {
                    Error::OrderViolation
                },
            ) && *final(self) == *old(self),
            !old(self).alloc_refused(mode) ==> {
                &&& (r matches Ok(i) && i == old(self).memory@.len())
                &&& (r matches Ok(i) && final(self).trace@ == old(self).trace@
                    + Self::alloc_entry(mode, i))
                &&& final(self).memory@ == old(self).memory@.push(data)
                &&& final(self).num_inputs == old(self).num_inputs_after(mode)
                &&& final(self).finalized == old(self).finalized
            },
            old(self).wf() ==> final(self).wf(),
    {
        if self.finalized {
            return Err(Error::FinalizedMutation);
        }
        if mode == AllocationMode::ProgramInput {
            if self.num_inputs.is_some() {
                return Err(Error::OrderViolation);
            }
        } else {
            if self.num_inputs.is_none() {
                self.num_inputs = Some(self.memory.len());
            }
        }
        let idx = self.memory.len();
        self.memory.push(data);
        match mode {
            AllocationMode::Constant => self.trace.push(TraceEntry::DeclareConstant(idx)),
            AllocationMode::Hint => self.trace.push(TraceEntry::RequestHint(idx)),
            AllocationMode::FunctionOutput => self.trace.push(TraceEntry::DeclareOutput(idx)),
            AllocationMode::ProgramInput => {},
        }
        proof {
            assert(final(self).trace@ =~= old(self).trace@ + Self::alloc_entry(mode, idx));
            if old(self).wf() {
                assert forall|k: int| 0 <= k < final(self).trace@.len() implies trace_entry_wf(
                    #[trigger] final(self).trace@[k],
                    final(self).memory@.len() as nat,
                ) by {
                    if k < old(self).trace@.len() {
                        assert(trace_entry_wf(old(self).trace@[k], old(self).memory@.len() as nat));
                    }
                }
            }
        }
        Ok(idx)
    }

    /// Records a plain subprogram: its snippet bytes are already fixed.
    pub fn insert_script(&mut self, snippet: Vec<u8>, input_idxs: Vec<usize>) -> (r: Result<
        (),
        Error,
    >)
        ensures
            old(self).finalized ==> r == Err::<(), Error>(Error::FinalizedMutation) && *final(self)
                == *old(self),
            !old(self).finalized ==> {
                &&& r == Ok::<(), Error>(())
                &&& final(self).memory@ == old(self).memory@
                &&& final(self).trace@.len() == old(self).trace@.len() + 1
                &&& final(self).trace@.subrange(0, old(self).trace@.len() as int) == old(
                    self,
                ).trace@
                &&& (final(self).trace@.last() matches TraceEntry::InsertScript(g, idxs, opts)
                    && g == ScriptGenerator::Simple(snippet) && idxs == input_idxs
                    && opts.map@.len() == 0)
                &&& final(self).num_inputs == (if old(self).num_inputs is None {
                    Some(old(self).memory@.len() as usize)
                } else {
                    old(self).num_inputs
                })
                &&& final(self).finalized == false
            },
            old(self).wf() && (forall|i: int|
                0 <= i < input_idxs@.len() ==> #[trigger] input_idxs@[i]
                    < old(self).memory@.len()) ==> final(self).wf(),
    {
        let r = self.insert_script_with_options(
            ScriptGenerator::Simple(snippet),
            input_idxs,
            Options::new(),
        );
        proof {
            if !old(self).finalized {
                assert(final(self).trace@.subrange(0, old(self).trace@.len() as int) =~= old(
                    self,
                ).trace@);
            }
        }
        r
    }

    /// Records a depth-dependent subprogram together with its options.
    pub fn insert_script_complex(
        &mut self,
        gadget: crate::script_generator::ComplexGadget,
        input_idxs: Vec<usize>,
        options: Options,
    ) -> (r: Result<(), Error>)
        ensures
            old(self).finalized ==> r == Err::<(), Error>(Error::FinalizedMutation) && *final(self)
                == *old(self),
            !old(self).finalized ==> {
                &&& r == Ok::<(), Error>(())
                &&& final(self).memory@ == old(self).memory@
                &&& final(self).trace@ == old(self).trace@ + seq![
                    TraceEntry::InsertScript(ScriptGenerator::Complex(gadget), input_idxs, options),
                ]
                &&& final(self).num_inputs == (if old(self).num_inputs is None {
                    Some(old(self).memory@.len() as usize)
                } else {
                    old(self).num_inputs
                })
                &&& final(self).finalized == false
            },
            old(self).wf() && (forall|i: int|
                0 <= i < input_idxs@.len() ==> #[trigger] input_idxs@[i]
                    < old(self).memory@.len()) ==> final(self).wf(),
    {
        self.insert_script_with_options(ScriptGenerator::Complex(gadget), input_idxs, options)
    }

    /// Records a subprogram emission with explicit generator and options.
    fn insert_script_with_options(
        &mut self,
        generator: ScriptGenerator,
        input_idxs: Vec<usize>,
        options: Options,
    ) -> (r: Result<(), Error>)
        ensures
            old(self).finalized ==> r == Err::<(), Error>(Error::FinalizedMutation) && *final(self)
                == *old(self),
            !old(self).finalized ==> {
                &&& r == Ok::<(), Error>(())
                &&& final(self).memory@ == old(self).memory@
                &&& final(self).trace@ == old(self).trace@ + seq![
                    TraceEntry::InsertScript(generator, input_idxs, options),
                ]
                &&& final(self).num_inputs == (if old(self).num_inputs is None {
                    Some(old(self).memory@.len() as usize)
                } else {
                    old(self).num_inputs
                })
                &&& final(self).finalized == false
            },
            old(self).wf() && (forall|i: int|
                0 <= i < input_idxs@.len() ==> #[trigger] input_idxs@[i]
                    < old(self).memory@.len()) ==> final(self).wf(),
    {
        if self.finalized {
            return Err(Error::FinalizedMutation);
        }
        if self.num_inputs.is_none() {
            self.num_inputs = Some(self.memory.len());
        }
        let ghost entry_inputs = input_idxs@;
        self.trace.push(TraceEntry::InsertScript(generator, input_idxs, options));
        proof {
            if old(self).wf() && (forall|i: int|
                0 <= i < entry_inputs.len() ==> #[trigger] entry_inputs[i]
                    < old(self).memory@.len()) {
                assert forall|k: int| 0 <= k < final(self).trace@.len() implies trace_entry_wf(
                    #[trigger] final(self).trace@[k],
                    final(self).memory@.len() as nat,
                ) by {
                    if k < old(self).trace@.len() {
                        assert(trace_entry_wf(old(self).trace@[k], old(self).memory@.len() as nat));
                    }
                }
            }
        }
        Ok(())
    }

    /// Marks each id of `indices` as a program output, deepest first.
    pub fn set_program_output_ids(&mut self, indices: &Vec<usize>) -> (r: Result<(), Error>)
        ensures
            r is Ok <==> !old(self).finalized && (forall|i: int|
                0 <= i < indices@.len() ==> #[trigger] indices@[i] < old(self).memory@.len()),
            r is Err ==> *final(self) == *old(self) && (r == Err::<(), Error>(
                Error::FinalizedMutation,
            ) <==> old(self).finalized) && (old(self).finalized || r == Err::<(), Error>(
                Error::MemoryCorruption,
            )),
            r is Ok ==> {
                &&& final(self).memory@ == old(self).memory@
                &&& final(self).trace@ == old(self).trace@ + indices@.map_values(
                    |idx: usize| TraceEntry::SystemOutput(idx),
                )
                &&& final(self).num_inputs == old(self).num_inputs
                &&& final(self).finalized == old(self).finalized
            },
            old(self).wf() ==> final(self).wf(),
    {
        if self.finalized {
            return Err(Error::FinalizedMutation);
        }
        let mut i: usize = 0;
        while i < indices.len()
            invariant
                0 <= i <= indices@.len(),
                *self == *old(self),
                !old(self).finalized,
                forall|k: int| 0 <= k < i ==> #[trigger] indices@[k] < self.memory@.len(),
            decreases indices@.len() - i,
        {
            if indices[i] >= self.memory.len() {
                return Err(Error::MemoryCorruption);
            }
            i = i + 1;
        }
        let mut j: usize = 0;
        while j < indices.len()
            invariant
                0 <= j <= indices@.len(),
                forall|k: int| 0 <= k < indices@.len() ==> #[trigger] indices@[k]
                    < self.memory@.len(),
                self.memory@ == old(self).memory@,
                self.num_inputs == old(self).num_inputs,
                self.finalized == old(self).finalized,
                !self.finalized,
                self.trace@ == old(self).trace@ + indices@.subrange(0, j as int).map_values(
                    |idx: usize| TraceEntry::SystemOutput(idx),
                ),
            decreases indices@.len() - j,
        {
            self.trace.push(TraceEntry::SystemOutput(indices[j]));
            proof {
                assert(indices@.subrange(0, j + 1).map_values(
                    |idx: usize| TraceEntry::SystemOutput(idx),
                ) =~= indices@.subrange(0, j as int).map_values(
                    |idx: usize| TraceEntry::SystemOutput(idx),
                ) + seq![TraceEntry::SystemOutput(indices@[j as int])]);
                assert(self.trace@ =~= old(self).trace@ + indices@.subrange(0, j + 1).map_values(
                    |idx: usize| TraceEntry::SystemOutput(idx),
                ));
            }
            j = j + 1;
        }
        proof {
            assert(indices@.subrange(0, indices@.len() as int) =~= indices@);
            if old(self).wf() {
                assert forall|k: int| 0 <= k < self.trace@.len() implies trace_entry_wf(
                    #[trigger] self.trace@[k],
                    self.memory@.len() as nat,
                ) by {
                    if k < old(self).trace@.len() {
                        assert(trace_entry_wf(old(self).trace@[k], old(self).memory@.len() as nat));
                    } else {
                        let off = k - old(self).trace@.len();
                        assert(self.trace@[k] == TraceEntry::SystemOutput(indices@[off]));
                    }
                }
            }
        }
        Ok(())
    }

    /// Marks each id of a variable as a program output, deepest first.
    pub fn set_program_output<V: crate::bvar::BVar>(&mut self, var: &V) -> (r: Result<(), Error>)
        requires
            var.wf_in(old(self)),
        ensures
            r is Ok <==> !old(self).finalized,
            r is Err ==> *final(self) == *old(self),
            r is Ok ==> {
                &&& final(self).memory@ == old(self).memory@
                &&& final(self).trace@ == old(self).trace@ + var.ids().map_values(
                    |idx: usize| TraceEntry::SystemOutput(idx),
                )
                &&& final(self).num_inputs == old(self).num_inputs
                &&& final(self).finalized == old(self).finalized
            },
            old(self).wf() ==> final(self).wf(),
    {
        let ids = var.variables();
        proof {
            var.ids_in_range(old(self));
        }
        self.set_program_output_ids(&ids)
    }

    /// Reads the element stored at an id.
    pub fn get_element(&self, idx: usize) -> (r: Result<&Element, Error>)
        ensures
            idx < self.memory@.len() ==> (r matches Ok(e) && e == &self.memory@[idx as int]),
            idx >= self.memory@.len() ==> r == Err::<&Element, Error>(Error::MemoryCorruption),
    {
        if idx < self.memory.len() {
            Ok(&self.memory[idx])
        } else {
            Err(Error::MemoryCorruption)
        }
    }

    /// Reads the element at an id as a number.
    pub fn get_num(&self, idx: usize) -> (r: Result<i32, Error>)
        ensures
            match r {
                Ok(v) => idx < self.memory@.len() && self.memory@[idx as int]@ == ElemV::Num(
                    v as int,
                ),
                Err(e) => e == Error::MemoryCorruption && (idx >= self.memory@.len()
                    || !(self.memory@[idx as int]@ is Num)),
            },
    {
        if idx < self.memory.len() {
            match &self.memory[idx] {
                Element::Num(v) => Ok(*v),
                Element::Str(_) => Err(Error::MemoryCorruption),
            }
        } else {
            Err(Error::MemoryCorruption)
        }
    }

    /// Reads the element at an id as a byte string.
    pub fn get_str(&self, idx: usize) -> (r: Result<&Vec<u8>, Error>)
        ensures
            match r {
                Ok(v) => idx < self.memory@.len() && self.memory@[idx as int]@ == ElemV::Str(v@),
                Err(e) => e == Error::MemoryCorruption && (idx >= self.memory@.len()
                    || !(self.memory@[idx as int]@ is Str)),
            },
    {
        if idx < self.memory.len() {
            match &self.memory[idx] {
                Element::Str(v) => Ok(v),
                Element::Num(_) => Err(Error::MemoryCorruption),
            }
        } else {
            Err(Error::MemoryCorruption)
        }
    }

    /// Latches the system: every later mutation is refused.
    pub fn finalize(&mut self)
        ensures
            final(self).memory@ == old(self).memory@,
            final(self).trace@ == old(self).trace@,
            final(self).num_inputs == old(self).num_inputs,
            final(self).finalized,
            old(self).wf() ==> final(self).wf(),
    {
        self.finalized = true;
    }
}

} // verus!
