use vstd::prelude::*;
use crate::bvar::{AllocationMode, BVar};
use crate::constraint_system::{ConstraintSystem, ElemV, Element};
use crate::errors::Error;

pub mod cm31;
pub mod m31;
pub mod utils;

verus! {

/// The value the shared lookup table holds at index `i`: the quarter
/// square, rounded down.
pub open spec fn table_entry(i: int) -> int {
    (i * i) / 4
}

/// The shared lookup table: the quarter squares of 0 through 2^n.
pub struct Table {
    pub data: Vec<i64>,
}

/// Builds the quarter-square table for indices 0 through 2^n.
pub fn generate_table(n: u32) -> (r: Table)
    requires
        1 <= n <= 9,
    ensures
        r.data@.len() == (1usize << n as usize) + 1,
        forall|i: int| 0 <= i < r.data@.len() ==> #[trigger] r.data@[i] == table_entry(i),
{
    proof {
        assert(1usize << n as usize <= 512 && 1usize << n as usize >= 2) by (bit_vector)
            requires
                1 <= n <= 9u32,
        ;
    }
    let count = (1usize << n as usize) + 1;
    let mut data: Vec<i64> = Vec::new();
    let mut i: usize = 0;
    while i < count
        invariant
            0 <= i <= count,
            count <= 513,
            data@.len() == i,
            forall|k: int| 0 <= k < i ==> #[trigger] data@[k] == table_entry(k),
        decreases count - i,
    {
        proof {
            assert(i * i <= 513 * 513) by (nonlinear_arith)
                requires
                    0 <= i <= 513,
            ;
        }
        let v = ((i * i) / 4) as i64;
        data.push(v);
        i = i + 1;
    }
    Table { data }
}

/// The full table the byte multiplier uses: quarter squares of 0
/// through 512.
pub fn get_table() -> (r: Table)
    ensures
        r.data@.len() == 513,
        forall|i: int| 0 <= i < 513 ==> #[trigger] r.data@[i] == table_entry(i),
{
    let t = generate_table(9);
    proof {
        assert(1usize << 9usize == 512) by (bit_vector);
    }
    t
}

/// The table placed on the stack as one large constant: the entries are
/// pushed from the highest index down, so the zero entry ends on top.
pub struct TableVar {
    pub variables: Vec<usize>,
}

impl TableVar {
    /// The table block is present in memory: 513 consecutive ids, the
    /// k-th holding the entry at index 512 - k.
    pub open spec fn wf_in(&self, cs: &ConstraintSystem) -> bool {
        &&& self.variables@.len() == 513
        &&& forall|k: int|
            0 <= k < 513 ==> #[trigger] self.variables@[k] < cs.memory@.len()
        &&& forall|k: int|
            0 <= k < 513 ==> (#[trigger] cs.memory@[self.variables@[k] as int]@) == ElemV::Num(
                table_entry(512 - k),
            )
    }

    /// The table's base id fits the 32-bit reference slot that the
    /// options bag carries for depth-dependent gadgets.
    pub open spec fn ref_ok(&self) -> bool {
        self.variables@[0] <= u32::MAX
    }

    /// Allocates the table as 513 constants, deepest entry first.
    pub fn new_constant(cs: &mut ConstraintSystem) -> (r: Result<TableVar, Error>)
        requires
            old(cs).wf(),
        ensures
            r is Ok <==> !old(cs).finalized,
            r is Err ==> *final(cs) == *old(cs),
            r matches Ok(v) ==> {
                &&& v.wf_in(&*final(cs))
                &&& final(cs).wf()
                &&& final(cs).finalized == false
                &&& v.variables@.len() == 513
                &&& (forall|k: int|
                    0 <= k < 513 ==> #[trigger] v.variables@[k] == old(cs).memory@.len() + k)
                &&& final(cs).memory@.len() == old(cs).memory@.len() + 513
                &&& forall|i: int|
                    0 <= i < old(cs).memory@.len() ==> #[trigger] final(cs).memory@[i]@ == old(
                        cs,
                    ).memory@[i]@
            },
    {
        if cs.finalized {
            return Err(Error::FinalizedMutation);
        }
        let table = get_table();
        let mut variables: Vec<usize> = Vec::new();
        let mut k: usize = 0;
        while k < 513
            invariant
                0 <= k <= 513,
                cs.wf(),
                !cs.finalized,
                variables@.len() == k,
                cs.memory@.len() == old(cs).memory@.len() + k,
                forall|d: int|
                    0 <= d < k ==> #[trigger] variables@[d] == old(cs).memory@.len() + d,
                forall|d: int|
                    0 <= d < k ==> (#[trigger] cs.memory@[variables@[d] as int]@) == ElemV::Num(
                        table_entry(512 - d),
                    ),
                forall|i: int|
                    0 <= i < old(cs).memory@.len() ==> #[trigger] cs.memory@[i]@ == old(
                        cs,
                    ).memory@[i]@,
            decreases 513 - k,
        {
            let idx = 512 - k;
            proof {
                assert(idx * idx <= 513 * 513) by (nonlinear_arith)
                    requires
                        0 <= idx <= 513,
                ;
            }
            let entry: i64 = (idx * idx / 4) as i64;
            proof {
                assert(idx as int == 512 - k as int);
                assert(entry as int == ((512 - k as int) * (512 - k as int)) / 4)
                    by (nonlinear_arith)
                    requires
                        entry as int == (idx as int * idx as int) / 4,
                        idx as int == 512 - k as int,
                ;
                assert(entry == table_entry(512 - k as int));
                assert(entry <= 65792);
            }
            let id = match cs.allocate(Element::Num(entry as i32), AllocationMode::Constant) {
                Ok(id) => id,
                Err(_) => {
                    proof {
                        assert(false);
                    }
                    return Err(Error::FinalizedMutation);
                },
            };
            variables.push(id);
            k = k + 1;
        }
        Ok(TableVar { variables })
    }

    /// The assigned stack element indices, deepest first.
    pub fn variables(&self) -> (r: Vec<usize>)
        ensures
            r@ == self.variables@,
    {
        let mut v: Vec<usize> = Vec::new();
        let mut i: usize = 0;
        while i < self.variables.len()
            invariant
                0 <= i <= self.variables@.len(),
                v@ == self.variables@.subrange(0, i as int),
            decreases self.variables@.len() - i,
        {
            v.push(self.variables[i]);
            proof {
                assert(v@ =~= self.variables@.subrange(0, i + 1));
            }
            i = i + 1;
        }
        proof {
            assert(v@ =~= self.variables@);
        }
        v
    }
}

} // verus!
verus! {

/// The law the lookup table rests on: for limbs whose sum stays inside
/// the table, the difference of the quarter squares at their sum and at
/// their distance is exactly their product.
pub proof fn lemma_quarter_square(a: int, b: int)
    requires
        0 <= b <= a,
        a + b <= 512,
    ensures
        table_entry(a + b) - table_entry(a - b) == a * b,
{
    let s = a + b;
    let d = a - b;
    if s % 2 == 0 {
        let u = s / 2;
        let w = d / 2;
        assert(s == 2 * u) by {
            vstd::arithmetic::div_mod::lemma_fundamental_div_mod(s, 2);
        }
        assert(d == 2 * w) by {
            assert(d % 2 == 0) by {
                assert(s - d == 2 * b);
            }
            vstd::arithmetic::div_mod::lemma_fundamental_div_mod(d, 2);
        }
        assert((s * s) / 4 == u * u) by (nonlinear_arith)
            requires
                s == 2 * u,
        ;
        assert((d * d) / 4 == w * w) by (nonlinear_arith)
            requires
                d == 2 * w,
        ;
        assert(u * u - w * w == a * b) by (nonlinear_arith)
            requires
                u - w == b && u + w == a,
        ;
    } else {
        let u = s / 2;
        let w = d / 2;
        assert(s == 2 * u + 1) by {
            vstd::arithmetic::div_mod::lemma_fundamental_div_mod(s, 2);
        }
        assert(d == 2 * w + 1) by {
            assert(d % 2 == 1) by {
                assert(s - d == 2 * b);
            }
            vstd::arithmetic::div_mod::lemma_fundamental_div_mod(d, 2);
        }
        assert((s * s) / 4 == u * u + u) by (nonlinear_arith)
            requires
                s == 2 * u + 1,
        ;
        assert((d * d) / 4 == w * w + w) by (nonlinear_arith)
            requires
                d == 2 * w + 1,
        ;
        assert(u * u + u - (w * w + w) == a * b) by (nonlinear_arith)
            requires
                u - w == b && u + w + 1 == a,
        ;
    }
}

} // verus!
