use vstd::prelude::*;
use crate::constraint_system::{ConstraintSystem, ElemV, Element, TraceEntry};
use crate::errors::Error;
use crate::options::{Options, OptionsEntry};
use crate::script::{
    emit_all, emit_op, emit_push_bytes, emit_push_int, push_bytes_bytes, push_int_bytes, OP_1SUB,
    OP_2DROP, OP_DEPTH, OP_DROP, OP_DUP, OP_FROMALTSTACK, OP_OVER, OP_PICK, OP_ROLL, OP_ROT,
    OP_SWAP, OP_TOALTSTACK,
};
use crate::script_generator::{ComplexGadget, ScriptGenerator};
use crate::stack::{
    fenwick_view, flags_of, status_flag, sum_range, Stack, StackElementStatus,
};

verus! {

/// The output of the planner: the initial-stack inputs, the hint vector,
/// and the linear program.
pub struct CompiledProgram {
    pub input: Vec<Element>,
    pub hint: Vec<Element>,
    pub script: Vec<u8>,
}

/// The number of inputs the program takes: the sealed count if the
/// recording layer sealed one, else the whole memory.
pub open spec fn spec_num_inputs(cs: ConstraintSystem) -> int {
    match cs.num_inputs {
        Some(n) => n as int,
        None => cs.memory@.len() as int,
    }
}

/// The number of subprogram emissions in a trace: the planner's clock.
pub open spec fn insert_count(trace: Seq<TraceEntry>) -> int
    decreases trace.len(),
{
    if trace.len() == 0 {
        0
    } else {
        insert_count(trace.drop_last()) + (if trace.last() is InsertScript {
            1int
        } else {
            0int
        })
    }
}

/// The timestamp of the last subprogram emission that uses `id` as an
/// operand, or -1 when none does.
pub open spec fn last_visit_in(trace: Seq<TraceEntry>, id: usize) -> int
    decreases trace.len(),
{
    if trace.len() == 0 {
        -1
    } else {
        match trace.last() {
            TraceEntry::InsertScript(_, inputs, _) => if inputs@.contains(id) {
                insert_count(trace.drop_last())
            } else {
                last_visit_in(trace.drop_last(), id)
            },
            _ => last_visit_in(trace.drop_last(), id),
        }
    }
}

/// The ids marked as program outputs, in trace order.
pub open spec fn outputs_of(trace: Seq<TraceEntry>) -> Seq<usize>
    decreases trace.len(),
{
    if trace.len() == 0 {
        seq![]
    } else {
        outputs_of(trace.drop_last()) + (match trace.last() {
            TraceEntry::SystemOutput(i) => seq![i],
            _ => seq![],
        })
    }
}

/// The hint vector: the element of each hint request, in trace order.
pub open spec fn hints_of(trace: Seq<TraceEntry>, memory: Seq<Element>) -> Seq<ElemV>
    decreases trace.len(),
{
    if trace.len() == 0 {
        seq![]
    } else {
        hints_of(trace.drop_last(), memory) + (match trace.last() {
            TraceEntry::RequestHint(i) => seq![memory[i as int]@],
            _ => seq![],
        })
    }
}

/// The depth-from-top a present id resolves to in a status map.
pub open spec fn spec_pos(st: Seq<StackElementStatus>, id: int) -> int {
    sum_range(flags_of(st), id, st.len() as int) - 1
}

/// The planner moves an operand instead of copying it exactly when this
/// emission is its last use, it does not recur later in this operand
/// list, and it is not a program output.
pub open spec fn rolls(
    trace: Seq<TraceEntry>,
    outputs: Seq<usize>,
    inputs: Seq<usize>,
    j: int,
    t: int,
    id: usize,
) -> bool {
    &&& last_visit_in(trace, id) == t
    &&& !inputs.subrange(j + 1, inputs.len() as int).contains(id)
    &&& !outputs.contains(id)
}

/// Resolving the operands of one emission, from the `j`-th on: each must
/// be present, and a moved operand leaves the live stack.
pub open spec fn plan_inputs(
    st: Seq<StackElementStatus>,
    inputs: Seq<usize>,
    j: int,
    trace: Seq<TraceEntry>,
    outputs: Seq<usize>,
    t: int,
) -> Option<Seq<StackElementStatus>>
    decreases inputs.len() - j when 0 <= j <= inputs.len()
{
    if j >= inputs.len() {
        Some(st)
    } else {
        let id = inputs[j];
        if id < st.len() && st[id as int] is PRESENT {
            let st2 = if rolls(trace, outputs, inputs, j, t, id) {
                st.update(id as int, StackElementStatus::PULLED)
            } else {
                st
            };
            plan_inputs(st2, inputs, j + 1, trace, outputs, t)
        } else {
            None
        }
    }
}

/// Whether a generator can be resolved against the statuses it sees: a
/// depth-dependent generator must find the shared table through its
/// `table_ref` option, present and at least its own footprint deep.
pub open spec fn gadget_ok(
    g: ScriptGenerator,
    opts: Options,
    st: Seq<StackElementStatus>,
) -> bool {
    match g {
        ScriptGenerator::Simple(_) => true,
        ScriptGenerator::Complex(ComplexGadget::M31LimbsMul) => {
            match opts.lookup("table_ref"@) {
                Some(OptionsEntry::U32(tid)) => {
                    &&& tid < st.len()
                    &&& st[tid as int] is PRESENT
                    &&& spec_pos(st, tid as int) >= 512
                    &&& spec_pos(st, tid as int) < 0x1000_0000
                },
                _ => false,
            }
        },
    }
}

/// Whether the planner can emit a literal push of an element.
pub open spec fn elem_pushable(e: Element) -> bool {
    match e@ {
        ElemV::Num(_) => true,
        ElemV::Str(s) => s.len() <= 0xffff,
    }
}

/// One step of the planner's main walk over the trace.
pub open spec fn plan_entry(
    st: Seq<StackElementStatus>,
    e: TraceEntry,
    trace: Seq<TraceEntry>,
    outputs: Seq<usize>,
    t: int,
    memory: Seq<Element>,
) -> Option<Seq<StackElementStatus>> {
    match e {
        TraceEntry::DeclareConstant(i) => if i < st.len() && st[i as int] is ABSENT && i
            < memory.len() && elem_pushable(memory[i as int]) {
            Some(st.update(i as int, StackElementStatus::PRESENT))
        } else {
            None
        },
        TraceEntry::DeclareOutput(i) => if i < st.len() && st[i as int] is ABSENT {
            Some(st.update(i as int, StackElementStatus::PRESENT))
        } else {
            None
        },
        TraceEntry::RequestHint(i) => if i < st.len() && st[i as int] is ABSENT && i
            < memory.len() {
            Some(st.update(i as int, StackElementStatus::PRESENT))
        } else {
            None
        },
        TraceEntry::SystemOutput(_) => Some(st),
        TraceEntry::InsertScript(g, inputs, opts) => if inputs@.len()
            < 0x1000_0000 {
            match plan_inputs(st, inputs@, 0, trace, outputs, t) {
                Some(st2) => if gadget_ok(g, opts, st2) {
                    Some(st2)
                } else {
                    None
                },
                None => None,
            }
        } else {
            None
        },
    }
}

/// The statuses of the initial stack: the inputs present, the rest absent.
pub open spec fn init_statuses(mem_len: int, n: int) -> Seq<StackElementStatus> {
    Seq::new(mem_len as nat, |i: int| if i < n {
        StackElementStatus::PRESENT
    } else {
        StackElementStatus::ABSENT
    })
}

/// The statuses after the planner has walked the first `k` trace events,
/// or nothing if the walk fails before that.
pub open spec fn plan_upto(cs: ConstraintSystem, k: int) -> Option<Seq<StackElementStatus>>
    decreases k when 0 <= k <= cs.trace@.len()
{
    if k <= 0 {
        Some(init_statuses(cs.memory@.len() as int, spec_num_inputs(cs)))
    } else {
        match plan_upto(cs, k - 1) {
            None => None,
            Some(st) => plan_entry(
                st,
                cs.trace@[k - 1],
                cs.trace@,
                outputs_of(cs.trace@),
                insert_count(cs.trace@.subrange(0, k - 1)),
                cs.memory@,
            ),
        }
    }
}

/// Routing the declared outputs, reversed, from the `j`-th on: each must
/// still be present; the last occurrence of an id is moved, earlier ones
/// are copied.
pub open spec fn plan_outputs(
    st: Seq<StackElementStatus>,
    outs_rev: Seq<usize>,
    j: int,
) -> Option<Seq<StackElementStatus>>
    decreases outs_rev.len() - j when 0 <= j <= outs_rev.len()
{
    if j >= outs_rev.len() {
        Some(st)
    } else {
        let id = outs_rev[j];
        if id < st.len() && st[id as int] is PRESENT {
            let st2 = if outs_rev.subrange(j + 1, outs_rev.len() as int).contains(id) {
                st
            } else {
                st.update(id as int, StackElementStatus::PULLED)
            };
            plan_outputs(st2, outs_rev, j + 1)
        } else {
            None
        }
    }
}

/// The planner succeeds on a system exactly under these conditions: the
/// sealed input count fits the memory, the sizes are sane, every event of
/// the main walk resolves, and every declared output survives to the end.
pub open spec fn compile_ok(cs: ConstraintSystem) -> bool {
    &&& spec_num_inputs(cs) <= cs.memory@.len()
    &&& cs.memory@.len() < 0x1000_0000
    &&& cs.trace@.len() < 0x1000_0000
    &&& match plan_upto(cs, cs.trace@.len() as int) {
        Some(st) => plan_outputs(st, outputs_of(cs.trace@).reverse(), 0) is Some,
        None => false,
    }
}

/// The bytes that push one element as a literal.
pub open spec fn push_elem_bytes(e: ElemV) -> Seq<u8> {
    match e {
        ElemV::Num(v) => push_int_bytes(v),
        ElemV::Str(s) => push_bytes_bytes(s),
    }
}

/// The bytes a resolved generator splices in: a depth-dependent
/// generator's snippet is a function of the shared table's position in
/// the statuses it sees.
pub open spec fn gadget_bytes(g: ScriptGenerator, opts: Options, st: Seq<StackElementStatus>) -> Seq<
    u8,
> {
    match g {
        ScriptGenerator::Simple(s) => s@,
        ScriptGenerator::Complex(ComplexGadget::M31LimbsMul) => {
            match opts.lookup("table_ref"@) {
                Some(OptionsEntry::U32(tid)) => crate::builtins::table::m31::limbs_mul_bytes(
                    spec_pos(st, tid as int),
                ),
                _ => seq![],
            }
        },
    }
}

/// The positional moves that bring one emission's operands to the top,
/// from the `j`-th operand on.
pub open spec fn inputs_bytes(
    st: Seq<StackElementStatus>,
    inputs: Seq<usize>,
    j: int,
    trace: Seq<TraceEntry>,
    outputs: Seq<usize>,
    t: int,
) -> Seq<u8>
    decreases inputs.len() - j when 0 <= j <= inputs.len()
{
    if j >= inputs.len() {
        seq![]
    } else {
        let id = inputs[j];
        let pos = spec_pos(st, id as int) + j;
        let moved = rolls(trace, outputs, inputs, j, t, id);
        let st2 = if moved {
            st.update(id as int, StackElementStatus::PULLED)
        } else {
            st
        };
        (if moved {
            spec_roll_script(pos)
        } else {
            spec_pick_script(pos)
        }) + inputs_bytes(st2, inputs, j + 1, trace, outputs, t)
    }
}

/// The bytes one trace event adds to the program.
pub open spec fn entry_bytes(
    st: Seq<StackElementStatus>,
    e: TraceEntry,
    trace: Seq<TraceEntry>,
    outputs: Seq<usize>,
    t: int,
    memory: Seq<Element>,
) -> Seq<u8> {
    match e {
        TraceEntry::DeclareConstant(i) => push_elem_bytes(memory[i as int]@),
        TraceEntry::DeclareOutput(_) => seq![],
        TraceEntry::RequestHint(_) => seq![OP_DEPTH, OP_1SUB, OP_ROLL],
        TraceEntry::SystemOutput(_) => seq![],
        TraceEntry::InsertScript(g, inputs, opts) => inputs_bytes(st, inputs@, 0, trace, outputs, t)
            + (match plan_inputs(st, inputs@, 0, trace, outputs, t) {
            Some(st2) => gadget_bytes(g, opts, st2),
            None => seq![],
        }),
    }
}

/// The program bytes the main walk has emitted after `k` trace events.
pub open spec fn emitted_upto(cs: ConstraintSystem, k: int) -> Seq<u8>
    decreases k when 0 <= k <= cs.trace@.len()
{
    if k <= 0 {
        seq![]
    } else {
        emitted_upto(cs, k - 1) + (match plan_upto(cs, k - 1) {
            Some(st) => entry_bytes(
                st,
                cs.trace@[k - 1],
                cs.trace@,
                outputs_of(cs.trace@),
                insert_count(cs.trace@.subrange(0, k - 1)),
                cs.memory@,
            ),
            None => seq![],
        })
    }
}

/// The bytes that route the declared outputs to the auxiliary stack.
pub open spec fn routing_bytes(
    st: Seq<StackElementStatus>,
    outs_rev: Seq<usize>,
    j: int,
) -> Seq<u8>
    decreases outs_rev.len() - j when 0 <= j <= outs_rev.len()
{
    if j >= outs_rev.len() {
        seq![]
    } else {
        let id = outs_rev[j];
        let pos = spec_pos(st, id as int);
        let again = outs_rev.subrange(j + 1, outs_rev.len() as int).contains(id);
        let st2 = if again {
            st
        } else {
            st.update(id as int, StackElementStatus::PULLED)
        };
        (if again {
            spec_pick_script(pos)
        } else {
            spec_roll_script(pos)
        }) + seq![OP_TOALTSTACK] + routing_bytes(st2, outs_rev, j + 1)
    }
}

/// One opcode repeated.
pub open spec fn rep_op(op: u8, n: int) -> Seq<u8>
    decreases n when n >= 0
{
    if n <= 0 {
        seq![]
    } else {
        seq![op] + rep_op(op, n - 1)
    }
}

/// Repeating once more appends the opcode.
pub proof fn lemma_rep_op_peel(op: u8, n: int)
    requires
        n >= 0,
    ensures
        rep_op(op, n + 1) == rep_op(op, n) + seq![op],
    decreases n,
{
    reveal_with_fuel(rep_op, 3);
    if n > 0 {
        lemma_rep_op_peel(op, n - 1);
        assert(rep_op(op, n + 1) =~= rep_op(op, n) + seq![op]);
    } else {
        assert(rep_op(op, 1) =~= seq![op]);
        assert(rep_op(op, 0) + seq![op] =~= seq![op]);
    }
}

/// The whole program a successful plan emits: the main walk's bytes, the
/// output routing, the garbage drops, and the output restoration.
pub open spec fn final_script(cs: ConstraintSystem) -> Seq<u8> {
    let st_main = plan_upto(cs, cs.trace@.len() as int).unwrap();
    let outs_rev = outputs_of(cs.trace@).reverse();
    let st_routed = plan_outputs(st_main, outs_rev, 0).unwrap();
    let live = sum_range(flags_of(st_routed), 0, st_routed.len() as int);
    emitted_upto(cs, cs.trace@.len() as int) + routing_bytes(st_main, outs_rev, 0) + rep_op(
        OP_2DROP,
        live / 2,
    ) + (if live % 2 == 1 {
        seq![OP_DROP]
    } else {
        seq![]
    }) + rep_op(OP_FROMALTSTACK, outs_rev.len() as int)
}

/// The planner is deterministic: everything a compilation produces --
/// the program bytes, the input vector and the hint vector -- is a
/// function of the recorded system alone, so compiling the same trace
/// twice yields byte-identical results.
pub proof fn lemma_compile_idempotent(
    cs: ConstraintSystem,
    script1: Seq<u8>,
    script2: Seq<u8>,
    hints1: Seq<ElemV>,
    hints2: Seq<ElemV>,
)
    requires
        script1 == final_script(cs),
        script2 == final_script(cs),
        hints1 == hints_of(cs.trace@, cs.memory@),
        hints2 == hints_of(cs.trace@, cs.memory@),
    ensures
        script1 == script2,
        hints1 == hints2,
{
}

/// The positional move that brings a value from `distance` below the top
/// to the top, consuming it there.
pub fn roll_script(distance: usize) -> (r: Vec<u8>)
    requires
        distance < 0x2000_0000,
    ensures
        r@ == spec_roll_script(distance as int),
{
    let mut s: Vec<u8> = Vec::new();
    if distance == 0 {
        // already on the top of the stack
    } else if distance == 1 {
        emit_op(&mut s, OP_SWAP);
    } else if distance == 2 {
        emit_op(&mut s, OP_ROT);
    } else {
        emit_push_int(&mut s, distance as i64);
        emit_op(&mut s, OP_ROLL);
    }
    proof {
        assert(s@ =~= spec_roll_script(distance as int));
    }
    s
}

/// The bytes of the positional move.
pub open spec fn spec_roll_script(distance: int) -> Seq<u8> {
    if distance == 0 {
        seq![]
    } else if distance == 1 {
        seq![OP_SWAP]
    } else if distance == 2 {
        seq![OP_ROT]
    } else {
        push_int_bytes(distance) + seq![OP_ROLL]
    }
}

/// The positional copy that places a duplicate of the value `distance`
/// below the top onto the top.
pub fn pick_script(distance: usize) -> (r: Vec<u8>)
    requires
        distance < 0x2000_0000,
    ensures
        r@ == spec_pick_script(distance as int),
{
    let mut s: Vec<u8> = Vec::new();
    if distance == 0 {
        emit_op(&mut s, OP_DUP);
    } else if distance == 1 {
        emit_op(&mut s, OP_OVER);
    } else {
        emit_push_int(&mut s, distance as i64);
        emit_op(&mut s, OP_PICK);
    }
    proof {
        assert(s@ =~= spec_pick_script(distance as int));
    }
    s
}

/// The bytes of the positional copy.
pub open spec fn spec_pick_script(distance: int) -> Seq<u8> {
    if distance == 0 {
        seq![OP_DUP]
    } else if distance == 1 {
        seq![OP_OVER]
    } else {
        push_int_bytes(distance) + seq![OP_PICK]
    }
}

/// Whether a sequence of ids holds `x` among its entries from `from` on.
fn contains_from(v: &Vec<usize>, from: usize, x: usize) -> (r: bool)
    requires
        from <= v@.len(),
    ensures
        r == v@.subrange(from as int, v@.len() as int).contains(x),
{
    let mut i = from;
    while i < v.len()
        invariant
            from <= i <= v@.len(),
            !v@.subrange(from as int, i as int).contains(x),
        decreases v@.len() - i,
    {
        if v[i] == x {
            proof {
                assert(v@.subrange(from as int, v@.len() as int)[i - from] == x);
            }
            return true;
        }
        proof {
            assert forall|k: int| 0 <= k < i + 1 - from implies #[trigger] v@.subrange(
                from as int,
                i + 1,
            )[k] != x by {
                if k < i - from {
                    assert(v@.subrange(from as int, i as int)[k] != x);
                }
            }
            assert(!v@.subrange(from as int, i + 1).contains(x));
        }
        i = i + 1;
    }
    proof {
        assert(v@.subrange(from as int, v@.len() as int) =~= v@.subrange(
            from as int,
            i as int,
        ));
    }
    false
}

/// The single-pass planner: walks the trace once and emits the linear
/// program together with its input and hint vectors.
pub struct Compiler;

impl Compiler {
    /// Compiles a recorded system into a linear program.  Succeeds exactly
    /// when the plan resolves (`compile_ok`); the produced input vector
    /// mirrors the memory's input prefix and the hint vector mirrors the
    /// hint requests in trace order.
    pub fn compile(cs: &ConstraintSystem) -> (r: Result<CompiledProgram, Error>)
        ensures
            r is Ok <==> compile_ok(*cs),
            r matches Ok(p) ==> {
                &&& p.input@.map_values(|e: Element| e@) == cs.memory@.subrange(
                    0,
                    spec_num_inputs(*cs),
                ).map_values(|e: Element| e@)
                &&& p.hint@.map_values(|e: Element| e@) == hints_of(cs.trace@, cs.memory@)
                &&& p.script@ == final_script(*cs)
            },
    {
        let mem_len = cs.memory.len();
        let trace_len = cs.trace.len();
        if mem_len >= 0x1000_0000 || trace_len >= 0x1000_0000 {
            return Err(Error::StackInvariant);
        }
        let num_inputs: usize = match cs.num_inputs {
            Some(n) => n,
            None => mem_len,
        };
        if num_inputs > mem_len {
            return Err(Error::MemoryCorruption);
        }

        // step 1: the last emission that touches each id
        let ghost tr = cs.trace@;
        let mut last_visit: Vec<i64> = Vec::new();
        let mut i: usize = 0;
        while i < mem_len
            invariant
                0 <= i <= mem_len,
                last_visit@.len() == i,
                forall|d: int| 0 <= d < i ==> #[trigger] last_visit@[d] == -1,
            decreases mem_len - i,
        {
            last_visit.push(-1);
            i = i + 1;
        }
        let mut cur_time: i64 = 0;
        let mut k: usize = 0;
        proof {
            assert(tr.subrange(0, 0) =~= Seq::<TraceEntry>::empty());
            assert forall|d: usize| d < mem_len implies #[trigger] last_visit@[d as int]
                == last_visit_in(tr.subrange(0, 0), d) by {}
        }
        while k < trace_len
            invariant
                0 <= k <= trace_len,
                trace_len == tr.len(),
                trace_len < 0x1000_0000,
                tr == cs.trace@,
                last_visit@.len() == mem_len,
                cur_time == insert_count(tr.subrange(0, k as int)),
                0 <= cur_time <= k,
                forall|d: usize|
                    d < mem_len ==> #[trigger] last_visit@[d as int] == last_visit_in(
                        tr.subrange(0, k as int),
                        d,
                    ),
            decreases trace_len - k,
        {
            let ghost pre = tr.subrange(0, k as int);
            let ghost post = tr.subrange(0, k + 1);
            proof {
                assert(post.drop_last() =~= pre);
            }
            match &cs.trace[k] {
                TraceEntry::InsertScript(_, inputs, _) => {
                    let mut j: usize = 0;
                    while j < inputs.len()
                        invariant
                            0 <= j <= inputs@.len(),
                            last_visit@.len() == mem_len,
                            forall|d: usize|
                                d < mem_len ==> #[trigger] last_visit@[d as int] == (
                                if inputs@.subrange(0, j as int).contains(d) {
                                    cur_time as int
                                } else {
                                    last_visit_in(pre, d)
                                }),
                        decreases inputs@.len() - j,
                    {
                        let id = inputs[j];
                        if id < mem_len {
                            last_visit.set(id, cur_time);
                        }
                        proof {
                            assert forall|d: usize| d < mem_len implies #[trigger] last_visit@[d as int]
                                == (if inputs@.subrange(0, j + 1).contains(d) {
                                cur_time as int
                            } else {
                                last_visit_in(pre, d)
                            }) by {
                                if inputs@.subrange(0, j + 1).contains(d) {
                                    if d != id {
                                        let w = choose|w: int|
                                            0 <= w < j + 1 && (#[trigger] inputs@.subrange(
                                                0,
                                                j + 1,
                                            )[w]) == d;
                                        assert(inputs@.subrange(0, j as int)[w] == d);
                                    }
                                } else {
                                    assert(forall|w: int|
                                        0 <= w < j ==> #[trigger] inputs@.subrange(0, j as int)[w]
                                            == inputs@.subrange(0, j + 1)[w]);
                                    assert(!inputs@.subrange(0, j as int).contains(d));
                                    assert(inputs@.subrange(0, j + 1)[j as int] == inputs@[j as int]);
                                    assert(d != id);
                                }
                            }
                        }
                        j = j + 1;
                    }
                    proof {
                        assert(inputs@.subrange(0, inputs@.len() as int) =~= inputs@);
                        assert forall|d: usize| d < mem_len implies #[trigger] last_visit@[d as int]
                            == last_visit_in(post, d) by {
                            assert(post.last() == tr[k as int]);
                            if inputs@.contains(d) {
                                assert(last_visit_in(post, d) == insert_count(pre));
                            }
                        }
                        assert(insert_count(post) == insert_count(pre) + 1);
                    }
                    cur_time = cur_time + 1;
                },
                _ => {
                    proof {
                        assert(insert_count(post) == insert_count(pre));
                        assert forall|d: usize| d < mem_len implies #[trigger] last_visit@[d as int]
                            == last_visit_in(post, d) by {
                            assert(post.last() == tr[k as int]);
                        }
                    }
                },
            }
            k = k + 1;
        }
        proof {
            assert(tr.subrange(0, trace_len as int) =~= tr);
        }

        // step 2: the input vector is the memory's input prefix
        let mut input: Vec<Element> = Vec::new();
        let mut i: usize = 0;
        while i < num_inputs
            invariant
                0 <= i <= num_inputs <= mem_len,
                mem_len == cs.memory@.len(),
                input@.len() == i,
                forall|d: int| 0 <= d < i ==> #[trigger] input@[d]@ == cs.memory@[d]@,
            decreases num_inputs - i,
        {
            let e = cs.memory[i].duplicate();
            input.push(e);
            i = i + 1;
        }

        // step 3: the initial stack holds the inputs
        let mut stack = Stack::new(mem_len);
        let mut i: usize = 0;
        while i < num_inputs
            invariant
                0 <= i <= num_inputs <= mem_len,
                stack.wf(),
                stack.size == mem_len,
                stack.bitmap@ == Seq::new(
                    mem_len as nat,
                    |d: int| if d < i {
                        StackElementStatus::PRESENT
                    } else {
                        StackElementStatus::ABSENT
                    },
                ),
            decreases num_inputs - i,
        {
            let res = stack.push_to_stack(i);
            proof {
                assert(res is Ok);
                assert(stack.bitmap@ =~= Seq::new(
                    mem_len as nat,
                    |d: int| if d < i + 1 {
                        StackElementStatus::PRESENT
                    } else {
                        StackElementStatus::ABSENT
                    },
                ));
            }
            i = i + 1;
        }
        proof {
            assert(stack.bitmap@ =~= init_statuses(mem_len as int, num_inputs as int));
        }

        // step 4: the declared outputs, in trace order
        let mut output: Vec<usize> = Vec::new();
        let mut k: usize = 0;
        proof {
            assert(outputs_of(tr.subrange(0, 0)) =~= Seq::<usize>::empty());
        }
        while k < trace_len
            invariant
                0 <= k <= trace_len,
                trace_len == tr.len(),
                tr == cs.trace@,
                output@ == outputs_of(tr.subrange(0, k as int)),
            decreases trace_len - k,
        {
            let ghost pre = tr.subrange(0, k as int);
            let ghost post = tr.subrange(0, k + 1);
            proof {
                assert(post.drop_last() =~= pre);
                assert(post.last() == tr[k as int]);
            }
            match &cs.trace[k] {
                TraceEntry::SystemOutput(idx) => {
                    output.push(*idx);
                    proof {
                        assert(output@ =~= outputs_of(post));
                    }
                },
                _ => {
                    proof {
                        assert(output@ =~= outputs_of(post));
                    }
                },
            }
            k = k + 1;
        }
        proof {
            assert(tr.subrange(0, trace_len as int) =~= tr);
        }
        let ghost all_outputs = outputs_of(tr);

        // step 5: the main walk
        let mut script: Vec<u8> = Vec::new();
        let mut hint: Vec<Element> = Vec::new();
        let mut cur_time: i64 = 0;
        let mut k: usize = 0;
        proof {
            assert(hints_of(tr.subrange(0, 0), cs.memory@) =~= Seq::<ElemV>::empty());
        }
        while k < trace_len
            invariant
                0 <= k <= trace_len,
                trace_len == tr.len(),
                trace_len < 0x1000_0000,
                mem_len == cs.memory@.len(),
                mem_len < 0x1000_0000,
                tr == cs.trace@,
                num_inputs == spec_num_inputs(*cs),
                output@ == all_outputs,
                all_outputs == outputs_of(tr),
                last_visit@.len() == mem_len,
                forall|d: usize|
                    d < mem_len ==> #[trigger] last_visit@[d as int] == last_visit_in(tr, d),
                stack.wf(),
                stack.size == mem_len,
                plan_upto(*cs, k as int) == Some(stack.bitmap@),
                cur_time == insert_count(tr.subrange(0, k as int)),
                0 <= cur_time <= k,
                hint@.map_values(|e: Element| e@) == hints_of(tr.subrange(0, k as int), cs.memory@),
                script@ == emitted_upto(*cs, k as int),
            decreases trace_len - k,
        {
            let ghost pre = tr.subrange(0, k as int);
            let ghost post = tr.subrange(0, k + 1);
            proof {
                assert(post.drop_last() =~= pre);
                assert(post.last() == tr[k as int]);
            }
            match &cs.trace[k] {
                TraceEntry::InsertScript(generator, inputs, opts) => {
                    if inputs.len() >= 0x1000_0000 {
                        proof {
                            lemma_plan_upto_fails(*cs, k as int);
                        }
                        return Err(Error::StackInvariant);
                    }
                    let ghost st0 = stack.bitmap@;
                    let mut j: usize = 0;
                    while j < inputs.len()
                        invariant
                            0 <= j <= inputs@.len(),
                            inputs@.len() < 0x1000_0000,
                            tr == cs.trace@,
                            trace_len == tr.len(),
                            k < trace_len,
                            pre == tr.subrange(0, k as int),
                            plan_upto(*cs, k as int) == Some(st0),
                            all_outputs == outputs_of(tr),
                            tr[k as int] == TraceEntry::InsertScript(
                                *generator,
                                *inputs,
                                *opts,
                            ),
                            stack.wf(),
                            stack.size == mem_len,
                            mem_len < 0x1000_0000,
                            last_visit@.len() == mem_len,
                            forall|d: usize|
                                d < mem_len ==> #[trigger] last_visit@[d as int] == last_visit_in(
                                    tr,
                                    d,
                                ),
                            output@ == all_outputs,
                            cur_time == insert_count(pre),
                            plan_inputs(st0, inputs@, 0, tr, all_outputs, insert_count(pre))
                                == plan_inputs(
                                stack.bitmap@,
                                inputs@,
                                j as int,
                                tr,
                                all_outputs,
                                insert_count(pre),
                            ),
                            emitted_upto(*cs, k as int) + inputs_bytes(
                                st0,
                                inputs@,
                                0,
                                tr,
                                all_outputs,
                                insert_count(pre),
                            ) == script@ + inputs_bytes(
                                stack.bitmap@,
                                inputs@,
                                j as int,
                                tr,
                                all_outputs,
                                insert_count(pre),
                            ),
                        decreases inputs@.len() - j,
                    {
                        let input_idx = inputs[j];
                        let pos = match stack.get_relative_position(input_idx) {
                            Ok(p) => p,
                            Err(e) => {
                                proof {
                                    assert(plan_inputs(
                                        stack.bitmap@,
                                        inputs@,
                                        j as int,
                                        tr,
                                        all_outputs,
                                        insert_count(pre),
                                    ) is None);
                                    lemma_plan_upto_fails(*cs, k as int);
                                }
                                return Err(e);
                            },
                        };
                        let distance = pos + j;
                        let do_roll = {
                            let lv = last_visit[input_idx];
                            if lv == cur_time {
                                let again = contains_from(inputs, j + 1, input_idx);
                                if !again {
                                    !Self::contains_id(&output, input_idx)
                                } else {
                                    false
                                }
                            } else {
                                false
                            }
                        };
                        proof {
                            assert(do_roll == rolls(
                                tr,
                                all_outputs,
                                inputs@,
                                j as int,
                                insert_count(pre),
                                input_idx,
                            ));
                        }
                        if do_roll {
                            let res = stack.pull(input_idx);
                            proof {
                                assert(res is Ok);
                            }
                            let snippet = roll_script(distance);
                            emit_all(&mut script, &snippet);
                        } else {
                            let snippet = pick_script(distance);
                            emit_all(&mut script, &snippet);
                        }
                        j = j + 1;
                    }
                    proof {
                        assert(plan_inputs(
                            st0,
                            inputs@,
                            0,
                            tr,
                            all_outputs,
                            insert_count(pre),
                        ) == Some(stack.bitmap@));
                    }
                    // splice in the generator's snippet
                    match generator {
                        ScriptGenerator::Simple(snippet) => {
                            emit_all(&mut script, snippet);
                        },
                        ScriptGenerator::Complex(gadget) => {
                            let snippet = match Self::run_complex(gadget, &stack, opts) {
                                Ok(s) => s,
                                Err(e) => {
                                    proof {
                                        lemma_plan_upto_fails(*cs, k as int);
                                    }
                                    return Err(e);
                                },
                            };
                            emit_all(&mut script, &snippet);
                        },
                    }
                    proof {
                        assert(insert_count(post) == insert_count(pre) + 1);
                        assert(plan_entry(
                            st0,
                            tr[k as int],
                            tr,
                            all_outputs,
                            insert_count(pre),
                            cs.memory@,
                        ) == Some(stack.bitmap@));
                        assert(hints_of(post, cs.memory@) =~= hints_of(pre, cs.memory@));
                        assert(inputs_bytes(
                            stack.bitmap@,
                            inputs@,
                            inputs@.len() as int,
                            tr,
                            all_outputs,
                            insert_count(pre),
                        ) =~= Seq::<u8>::empty());
                        assert(script@ =~= emitted_upto(*cs, k as int) + entry_bytes(
                            st0,
                            tr[k as int],
                            tr,
                            all_outputs,
                            insert_count(pre),
                            cs.memory@,
                        ));
                        assert(script@ =~= emitted_upto(*cs, k + 1));
                    }
                    cur_time = cur_time + 1;
                },
                TraceEntry::DeclareConstant(idx) => {
                    let idx = *idx;
                    if idx >= mem_len {
                        proof {
                            lemma_plan_upto_fails(*cs, k as int);
                        }
                        return Err(Error::MemoryCorruption);
                    }
                    let res = stack.push_to_stack(idx);
                    if res.is_err() {
                        proof {
                            lemma_plan_upto_fails(*cs, k as int);
                        }
                        return Err(Error::StackInvariant);
                    }
                    match &cs.memory[idx] {
                        Element::Num(v) => {
                            emit_push_int(&mut script, *v as i64);
                        },
                        Element::Str(s) => {
                            if s.len() > 0xffff {
                                proof {
                                    lemma_plan_upto_fails(*cs, k as int);
                                }
                                return Err(Error::TypeMismatch);
                            }
                            emit_push_bytes(&mut script, s);
                        },
                    }
                    proof {
                        assert(insert_count(post) == insert_count(pre));
                        assert(hints_of(post, cs.memory@) =~= hints_of(pre, cs.memory@));
                        assert(script@ =~= emitted_upto(*cs, k + 1));
                    }
                },
                TraceEntry::DeclareOutput(idx) => {
                    let res = stack.push_to_stack(*idx);
                    if res.is_err() {
                        proof {
                            lemma_plan_upto_fails(*cs, k as int);
                        }
                        return Err(Error::StackInvariant);
                    }
                    proof {
                        assert(insert_count(post) == insert_count(pre));
                        assert(hints_of(post, cs.memory@) =~= hints_of(pre, cs.memory@));
                        assert(script@ =~= emitted_upto(*cs, k + 1));
                    }
                },
                TraceEntry::RequestHint(idx) => {
                    let idx = *idx;
                    if idx >= mem_len {
                        proof {
                            lemma_plan_upto_fails(*cs, k as int);
                        }
                        return Err(Error::MemoryCorruption);
                    }
                    let res = stack.push_to_stack(idx);
                    if res.is_err() {
                        proof {
                            lemma_plan_upto_fails(*cs, k as int);
                        }
                        return Err(Error::StackInvariant);
                    }
                    let e = cs.memory[idx].duplicate();
                    hint.push(e);
                    emit_op(&mut script, OP_DEPTH);
                    emit_op(&mut script, OP_1SUB);
                    emit_op(&mut script, OP_ROLL);
                    proof {
                        assert(insert_count(post) == insert_count(pre));
                        assert(hint@.map_values(|e: Element| e@) =~= hints_of(post, cs.memory@));
                        assert(script@ =~= emitted_upto(*cs, k + 1));
                    }
                },
                TraceEntry::SystemOutput(_) => {
                    proof {
                        assert(insert_count(post) == insert_count(pre));
                        assert(hints_of(post, cs.memory@) =~= hints_of(pre, cs.memory@));
                        assert(script@ =~= emitted_upto(*cs, k + 1));
                    }
                },
            }
            k = k + 1;
        }
        proof {
            assert(tr.subrange(0, trace_len as int) =~= tr);
        }

        // step 6: route the declared outputs through the auxiliary stack
        let mut output_list_rev: Vec<usize> = Vec::new();
        let mut i = output.len();
        while i > 0
            invariant
                0 <= i <= output@.len(),
                output_list_rev@.len() == output@.len() - i,
                forall|d: int|
                    0 <= d < output_list_rev@.len() ==> #[trigger] output_list_rev@[d]
                        == output@[output@.len() - 1 - d],
            decreases i,
        {
            i = i - 1;
            output_list_rev.push(output[i]);
        }
        proof {
            assert(output_list_rev@ =~= all_outputs.reverse());
        }

        let mut output_total_len: usize = 0;
        let mut j: usize = 0;
        let ghost st_routed = stack.bitmap@;
        let ghost emitted_main = script@;
        while j < output_list_rev.len()
            invariant
                0 <= j <= output_list_rev@.len(),
                output_list_rev@.len() == all_outputs.len(),
                output_list_rev@ == all_outputs.reverse(),
                all_outputs == outputs_of(cs.trace@),
                trace_len == cs.trace@.len(),
                plan_upto(*cs, trace_len as int) == Some(st_routed),
                stack.wf(),
                stack.size == mem_len,
                mem_len < 0x1000_0000,
                output_total_len == j,
                plan_outputs(st_routed, output_list_rev@, 0) == plan_outputs(
                    stack.bitmap@,
                    output_list_rev@,
                    j as int,
                ),
                emitted_main + routing_bytes(st_routed, output_list_rev@, 0) == script@
                    + routing_bytes(stack.bitmap@, output_list_rev@, j as int),
            decreases output_list_rev@.len() - j,
        {
            let idx = output_list_rev[j];
            let pos = match stack.get_relative_position(idx) {
                Ok(p) => p,
                Err(e) => {
                    proof {
                        assert(plan_outputs(stack.bitmap@, output_list_rev@, j as int) is None);
                    }
                    return Err(e);
                },
            };
            let again = contains_from(&output_list_rev, j + 1, idx);
            if again {
                let snippet = pick_script(pos);
                emit_all(&mut script, &snippet);
            } else {
                let res = stack.pull(idx);
                proof {
                    assert(res is Ok);
                }
                let snippet = roll_script(pos);
                emit_all(&mut script, &snippet);
            }
            emit_op(&mut script, OP_TOALTSTACK);
            output_total_len = output_total_len + 1;
            j = j + 1;
        }

        // step 7: drop the dead values
        proof {
            assert(fenwick_view(stack.fenwick_tree) =~= flags_of(stack.bitmap@));
        }
        let elements_in_stack = stack.get_num_elements_in_stack();
        let ghost emitted_routed = script@;
        let mut d: usize = 0;
        proof {
            assert(script@ =~= emitted_routed + rep_op(OP_2DROP, 0));
        }
        while d < elements_in_stack / 2
            invariant
                d <= elements_in_stack / 2,
                script@ == emitted_routed + rep_op(OP_2DROP, d as int),
            decreases elements_in_stack / 2 - d,
        {
            emit_op(&mut script, OP_2DROP);
            proof {
                lemma_rep_op_peel(OP_2DROP, d as int);
                assert(script@ =~= emitted_routed + rep_op(OP_2DROP, d + 1));
            }
            d = d + 1;
        }
        if elements_in_stack % 2 == 1 {
            emit_op(&mut script, OP_DROP);
        }

        // step 8: restore the outputs from the auxiliary stack
        let ghost emitted_dropped = script@;
        let mut d: usize = 0;
        proof {
            assert(script@ =~= emitted_dropped + rep_op(OP_FROMALTSTACK, 0));
        }
        while d < output_total_len
            invariant
                d <= output_total_len,
                script@ == emitted_dropped + rep_op(OP_FROMALTSTACK, d as int),
            decreases output_total_len - d,
        {
            emit_op(&mut script, OP_FROMALTSTACK);
            proof {
                lemma_rep_op_peel(OP_FROMALTSTACK, d as int);
                assert(script@ =~= emitted_dropped + rep_op(OP_FROMALTSTACK, d + 1));
            }
            d = d + 1;
        }

        proof {
            assert(input@.map_values(|e: Element| e@) =~= cs.memory@.subrange(
                0,
                spec_num_inputs(*cs),
            ).map_values(|e: Element| e@));
            assert(routing_bytes(
                stack.bitmap@,
                output_list_rev@,
                output_list_rev@.len() as int,
            ) =~= Seq::<u8>::empty());
            assert(emitted_routed =~= emitted_main + routing_bytes(
                st_routed,
                output_list_rev@,
                0,
            ));
            assert(script@ =~= final_script(*cs));
        }
        Ok(CompiledProgram { input, hint, script })
    }

    /// Whether an id occurs in a list of output ids.
    fn contains_id(v: &Vec<usize>, x: usize) -> (r: bool)
        ensures
            r == v@.contains(x),
    {
        let mut i: usize = 0;
        while i < v.len()
            invariant
                0 <= i <= v@.len(),
                forall|d: int| 0 <= d < i ==> #[trigger] v@[d] != x,
            decreases v@.len() - i,
        {
            if v[i] == x {
                return true;
            }
            i = i + 1;
        }
        false
    }

    /// Resolves a depth-dependent generator against the live stack model.
    fn run_complex(gadget: &ComplexGadget, stack: &Stack, opts: &Options) -> (r: Result<
        Vec<u8>,
        Error,
    >)
        requires
            stack.wf(),
        ensures
            r is Ok <==> gadget_ok(
                ScriptGenerator::Complex(*gadget),
                *opts,
                stack.bitmap@,
            ),
            r matches Ok(sn) ==> sn@ == gadget_bytes(
                ScriptGenerator::Complex(*gadget),
                *opts,
                stack.bitmap@,
            ),
    {
        match gadget {
            ComplexGadget::M31LimbsMul => {
                let table_ref = match opts.get_u32("table_ref") {
                    Ok(v) => v,
                    Err(e) => {
                        return Err(e);
                    },
                };
                let pos = match stack.get_relative_position(table_ref as usize) {
                    Ok(p) => p,
                    Err(e) => {
                        return Err(e);
                    },
                };
                if pos < 512 {
                    return Err(Error::StackInvariant);
                }
                if pos >= 0x1000_0000 {
                    return Err(Error::StackInvariant);
                }
                Ok(crate::builtins::table::m31::m31_limbs_mul_snippet(pos))
            },
        }
    }
}

/// Once the plan has failed at step `k`, the whole plan fails.
proof fn lemma_plan_upto_fails(cs: ConstraintSystem, k: int)
    requires
        0 <= k < cs.trace@.len(),
        plan_upto(cs, k + 1) is None,
    ensures
        plan_upto(cs, cs.trace@.len() as int) is None,
    decreases cs.trace@.len() - k,
{
    if k + 1 < cs.trace@.len() {
        lemma_plan_upto_fails(cs, k + 1);
    }
}

} // verus!
verus! {

/// A system whose trace marks an unknown id as an output can never
/// compile: the output id is absent from every status map.
pub proof fn lemma_outputs_unreachable(cs: ConstraintSystem, k: int)
    requires
        0 <= k < cs.trace@.len(),
        cs.trace@[k] matches TraceEntry::SystemOutput(idx) && idx >= cs.memory@.len(),
    ensures
        !compile_ok(cs),
{
    if compile_ok(cs) {
        let st = plan_upto(cs, cs.trace@.len() as int).unwrap();
        lemma_plan_len(cs, cs.trace@.len() as int);
        let outs = outputs_of(cs.trace@);
        lemma_outputs_member(cs.trace@, k);
        let idx = cs.trace@[k]->SystemOutput_0;
        let j = choose|j: int| 0 <= j < outs.len() && outs[j] == idx;
        let rev = outs.reverse();
        assert(rev[outs.len() - 1 - j] == idx);
        lemma_plan_outputs_in_range(st, rev, 0, outs.len() - 1 - j);
    }
}

/// The status map the plan reaches always spans the whole memory.
proof fn lemma_plan_len(cs: ConstraintSystem, k: int)
    requires
        0 <= k <= cs.trace@.len(),
        plan_upto(cs, k) is Some,
    ensures
        plan_upto(cs, k).unwrap().len() == cs.memory@.len(),
    decreases k,
{
    if k > 0 {
        lemma_plan_len(cs, k - 1);
        let st = plan_upto(cs, k - 1).unwrap();
        lemma_plan_entry_len(
            st,
            cs.trace@[k - 1],
            cs.trace@,
            outputs_of(cs.trace@),
            insert_count(cs.trace@.subrange(0, k - 1)),
            cs.memory@,
        );
    }
}

/// One plan step keeps the status map's span.
proof fn lemma_plan_entry_len(
    st: Seq<StackElementStatus>,
    e: TraceEntry,
    trace: Seq<TraceEntry>,
    outputs: Seq<usize>,
    t: int,
    memory: Seq<Element>,
)
    requires
        plan_entry(st, e, trace, outputs, t, memory) is Some,
    ensures
        plan_entry(st, e, trace, outputs, t, memory).unwrap().len() == st.len(),
{
    match e {
        TraceEntry::InsertScript(g, inputs, opts) => {
            lemma_plan_inputs_len(st, inputs@, 0, trace, outputs, t);
        },
        _ => {},
    }
}

/// Resolving operands keeps the status map's span.
proof fn lemma_plan_inputs_len(
    st: Seq<StackElementStatus>,
    inputs: Seq<usize>,
    j: int,
    trace: Seq<TraceEntry>,
    outputs: Seq<usize>,
    t: int,
)
    requires
        0 <= j <= inputs.len(),
        plan_inputs(st, inputs, j, trace, outputs, t) is Some,
    ensures
        plan_inputs(st, inputs, j, trace, outputs, t).unwrap().len() == st.len(),
    decreases inputs.len() - j,
{
    if j < inputs.len() {
        let id = inputs[j];
        let st2 = if rolls(trace, outputs, inputs, j, t, id) {
            st.update(id as int, StackElementStatus::PULLED)
        } else {
            st
        };
        lemma_plan_inputs_len(st2, inputs, j + 1, trace, outputs, t);
    }
}

/// An output id marked at position `k` is a member of the output list.
proof fn lemma_outputs_member(trace: Seq<TraceEntry>, k: int)
    requires
        0 <= k < trace.len(),
        trace[k] is SystemOutput,
    ensures
        exists|j: int|
            0 <= j < outputs_of(trace).len() && outputs_of(trace)[j] == trace[k]->SystemOutput_0,
    decreases trace.len(),
{
    if k == trace.len() - 1 {
        let outs = outputs_of(trace);
        assert(outs[outs.len() - 1] == trace[k]->SystemOutput_0);
    } else {
        lemma_outputs_member(trace.drop_last(), k);
        let pre = outputs_of(trace.drop_last());
        let j = choose|j: int|
            0 <= j < pre.len() && pre[j] == trace.drop_last()[k]->SystemOutput_0;
        assert(outputs_of(trace)[j] == pre[j]);
        assert(trace.drop_last()[k] == trace[k]);
    }
}

/// Routing the outputs demands each routed id be inside the span.
proof fn lemma_plan_outputs_in_range(
    st: Seq<StackElementStatus>,
    outs_rev: Seq<usize>,
    j: int,
    target: int,
)
    requires
        0 <= j <= target < outs_rev.len(),
        plan_outputs(st, outs_rev, j) is Some,
    ensures
        outs_rev[target] < st.len(),
    decreases target - j,
{
    let id = outs_rev[j];
    let st2 = if outs_rev.subrange(j + 1, outs_rev.len() as int).contains(id) {
        st
    } else {
        st.update(id as int, StackElementStatus::PULLED)
    };
    if j < target {
        lemma_plan_outputs_in_range(st2, outs_rev, j + 1, target);
    }
}

} // verus!
