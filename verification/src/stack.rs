use vstd::prelude::*;
use crate::errors::Error;
use fenwick_tree::FenwickTree;

verus! {

/// The planner's Fenwick tree over per-id live flags, held behind an
/// opaque wrapper because the tree type itself cannot be declared to the
/// verifier.
#[verifier::external_body]
pub struct FenwickCounts {
    inner: FenwickTree<isize>,
}

/// The conceptual array of per-index values that the Fenwick tree
/// carries: `add` updates one entry, `sum` takes a range sum over it.
pub uninterp spec fn fenwick_view(t: FenwickCounts) -> Seq<int>;

/// The sum of the entries of `s` over the range [a, b).
pub open spec fn sum_range(s: Seq<int>, a: int, b: int) -> int
    decreases b - a when a <= b
{
    if a >= b {
        0
    } else {
        s[a] + sum_range(s, a + 1, b)
    }
}

/// A range sum of entries that all lie in [0, 1] lies in [0, b - a].
pub proof fn lemma_sum_range_bounds(s: Seq<int>, a: int, b: int)
    requires
        0 <= a <= b <= s.len(),
        forall|i: int| 0 <= i < s.len() ==> 0 <= #[trigger] s[i] <= 1,
    ensures
        0 <= sum_range(s, a, b) <= b - a,
    decreases b - a,
{
    if a < b {
        lemma_sum_range_bounds(s, a + 1, b);
    }
}

/// An update outside a range leaves its sum unchanged; inside, the sum
/// moves by the difference.
pub proof fn lemma_sum_range_update(s: Seq<int>, a: int, b: int, i: int, v: int)
    requires
        0 <= i < s.len(),
        a <= b <= s.len(),
        0 <= a,
    ensures
        a <= i < b ==> sum_range(s.update(i, v), a, b) == sum_range(s, a, b) + v - s[i],
        !(a <= i < b) ==> sum_range(s.update(i, v), a, b) == sum_range(s, a, b),
    decreases b - a,
{
    if a < b {
        lemma_sum_range_update(s, a + 1, b, i, v);
    }
}

/// Relies on fenwick_tree::FenwickTree::with_len: a fresh tree over `len`
/// entries, each zero.
#[verifier::external_body]
fn fenwick_with_len(len: usize) -> (r: FenwickCounts)
    ensures
        fenwick_view(r) == Seq::new(len as nat, |i: int| 0int),
{
    FenwickCounts { inner: FenwickTree::with_len(len) }
}

/// Relies on fenwick_tree::FenwickTree::add: adds `delta` to the entry at
/// `i`; in-range indices always succeed.  The entries are kept within
/// [0, 1], so no internal partial sum can overflow.
#[verifier::external_body]
fn fenwick_add(t: &mut FenwickCounts, i: usize, delta: isize)
    requires
        i < fenwick_view(*old(t)).len(),
        fenwick_view(*old(t)).len() < 0x1000_0000,
        forall|j: int|
            0 <= j < fenwick_view(*old(t)).len() ==> 0 <= #[trigger] fenwick_view(*old(t))[j] <= 1,
        0 <= fenwick_view(*old(t))[i as int] + delta <= 1,
    ensures
        fenwick_view(*final(t)) == fenwick_view(*old(t)).update(
            i as int,
            fenwick_view(*old(t))[i as int] + delta,
        ),
{
    let _ = t.inner.add(i, delta);
}

/// Relies on fenwick_tree::FenwickTree::sum: the partial sum over the
/// nonempty in-range interval [a, b).
#[verifier::external_body]
fn fenwick_sum(t: &FenwickCounts, a: usize, b: usize) -> (r: isize)
    requires
        a < b,
        b <= fenwick_view(*t).len(),
        forall|j: int|
            0 <= j < fenwick_view(*t).len() ==> 0 <= #[trigger] fenwick_view(*t)[j] <= 1,
    ensures
        r == sum_range(fenwick_view(*t), a as int, b as int),
{
    match t.inner.sum(a..b) {
        Ok(v) => v,
        Err(_) => 0,
    }
}

/// The state of one id's slot in the live stack model.
#[derive(Debug, Clone, Copy, PartialEq, Eq, Structural)]
pub enum StackElementStatus {
    ABSENT,
    PRESENT,
    PULLED,
}

/// The planner's live model of the machine stack: a status per id, and a
/// Fenwick tree over the live flags so that depth-from-top queries are
/// logarithmic.
pub struct Stack {
    pub bitmap: Vec<StackElementStatus>,
    pub fenwick_tree: FenwickCounts,
    pub size: usize,
}

/// The live flags of a whole status map.
pub open spec fn flags_of(st: Seq<StackElementStatus>) -> Seq<int> {
    st.map_values(|s: StackElementStatus| status_flag(s))
}

/// The flag an id contributes to the tree: one exactly when present.
pub open spec fn status_flag(s: StackElementStatus) -> int {
    if s is PRESENT {
        1
    } else {
        0
    }
}

impl Stack {
    /// The model is coherent: the tree's entries are the live flags of
    /// the bitmap, index by index.
    pub open spec fn wf(&self) -> bool {
        &&& self.bitmap@.len() == self.size
        &&& fenwick_view(self.fenwick_tree).len() == self.size
        &&& self.size < 0x1000_0000
        &&& forall|i: int|
            0 <= i < self.size ==> #[trigger] fenwick_view(self.fenwick_tree)[i] == status_flag(
                self.bitmap@[i],
            )
    }

    /// The status of an id.
    pub open spec fn status(&self, idx: int) -> StackElementStatus {
        self.bitmap@[idx]
    }

    /// The number of ids on the live stack.
    pub open spec fn num_present(&self) -> int {
        sum_range(fenwick_view(self.fenwick_tree), 0, self.size as int)
    }

    /// The zero-based depth from the top of a present id: the number of
    /// present ids allocated at or after it, less one.
    pub open spec fn rel_pos(&self, idx: int) -> int {
        sum_range(fenwick_view(self.fenwick_tree), idx, self.size as int) - 1
    }

    /// A fresh model of `size` slots, all absent.
    pub fn new(size: usize) -> (r: Stack)
        requires
            size < 0x1000_0000,
        ensures
            r.wf(),
            r.size == size,
            forall|i: int| 0 <= i < size ==> #[trigger] r.bitmap@[i] is ABSENT,
            r.num_present() == 0,
    {
        let mut bitmap: Vec<StackElementStatus> = Vec::new();
        let mut i: usize = 0;
        while i < size
            invariant
                0 <= i <= size,
                bitmap@.len() == i,
                forall|k: int| 0 <= k < i ==> #[trigger] bitmap@[k] is ABSENT,
            decreases size - i,
        {
            bitmap.push(StackElementStatus::ABSENT);
            i = i + 1;
        }
        let fenwick_tree = fenwick_with_len(size);
        let r = Stack { bitmap, fenwick_tree, size };
        proof {
            lemma_sum_range_zero(fenwick_view(r.fenwick_tree), 0, size as int);
        }
        r
    }

    /// Marks an absent id as present on the stack.
    pub fn push_to_stack(&mut self, idx: usize) -> (r: Result<(), Error>)
        requires
            old(self).wf(),
        ensures
            final(self).wf(),
            final(self).size == old(self).size,
            r is Ok <==> idx < old(self).size && old(self).status(idx as int) is ABSENT,
            r is Err ==> *final(self) == *old(self) && r == Err::<(), Error>(Error::StackInvariant),
            r is Ok ==> final(self).bitmap@ == old(self).bitmap@.update(
                idx as int,
                StackElementStatus::PRESENT,
            ) && final(self).num_present() == old(self).num_present() + 1,
    {
        if idx >= self.size {
            return Err(Error::StackInvariant);
        }
        match self.bitmap[idx] {
            StackElementStatus::ABSENT => {},
            _ => {
                return Err(Error::StackInvariant);
            },
        }
        self.bitmap.set(idx, StackElementStatus::PRESENT);
        let ghost pre = fenwick_view(self.fenwick_tree);
        fenwick_add(&mut self.fenwick_tree, idx, 1);
        proof {
            assert(fenwick_view(self.fenwick_tree) =~= pre.update(idx as int, 1));
            lemma_sum_range_update(pre, 0, self.size as int, idx as int, 1);
        }
        Ok(())
    }

    /// Whether an id is on the live stack.
    pub fn is_present(&self, idx: usize) -> (r: Result<bool, Error>)
        requires
            self.wf(),
        ensures
            r is Ok <==> idx < self.size,
            r matches Ok(b) ==> b == (self.status(idx as int) is PRESENT),
            r is Err ==> r == Err::<bool, Error>(Error::StackInvariant),
    {
        if idx >= self.size {
            return Err(Error::StackInvariant);
        }
        match self.bitmap[idx] {
            StackElementStatus::PRESENT => Ok(true),
            _ => Ok(false),
        }
    }

    /// Pulls a present id aside: it leaves the live stack for good.
    pub fn pull(&mut self, idx: usize) -> (r: Result<(), Error>)
        requires
            old(self).wf(),
        ensures
            final(self).wf(),
            final(self).size == old(self).size,
            r is Ok <==> idx < old(self).size && old(self).status(idx as int) is PRESENT,
            r is Err ==> *final(self) == *old(self) && r == Err::<(), Error>(Error::StackInvariant),
            r is Ok ==> final(self).bitmap@ == old(self).bitmap@.update(
                idx as int,
                StackElementStatus::PULLED,
            ) && final(self).num_present() == old(self).num_present() - 1,
    {
        if idx >= self.size {
            return Err(Error::StackInvariant);
        }
        match self.bitmap[idx] {
            StackElementStatus::PRESENT => {},
            _ => {
                return Err(Error::StackInvariant);
            },
        }
        self.bitmap.set(idx, StackElementStatus::PULLED);
        let ghost pre = fenwick_view(self.fenwick_tree);
        fenwick_add(&mut self.fenwick_tree, idx, -1);
        proof {
            assert(fenwick_view(self.fenwick_tree) =~= pre.update(idx as int, 0));
            lemma_sum_range_update(pre, 0, self.size as int, idx as int, 0);
        }
        Ok(())
    }

    /// The zero-based depth from the top of a present id.
    pub fn get_relative_position(&self, idx: usize) -> (r: Result<usize, Error>)
        requires
            self.wf(),
        ensures
            r is Ok <==> idx < self.size && self.status(idx as int) is PRESENT,
            r matches Ok(p) ==> p == self.rel_pos(idx as int) && p < self.size && p == sum_range(
                flags_of(self.bitmap@),
                idx as int,
                self.size as int,
            ) - 1,
            r is Err ==> r == Err::<usize, Error>(Error::StackInvariant),
    {
        if idx >= self.size {
            return Err(Error::StackInvariant);
        }
        match self.bitmap[idx] {
            StackElementStatus::PRESENT => {},
            _ => {
                return Err(Error::StackInvariant);
            },
        }
        let s = fenwick_sum(&self.fenwick_tree, idx, self.size);
        proof {
            assert(fenwick_view(self.fenwick_tree) =~= flags_of(self.bitmap@));
            lemma_sum_range_bounds(fenwick_view(self.fenwick_tree), idx as int, self.size as int);
            assert(sum_range(fenwick_view(self.fenwick_tree), idx as int, self.size as int)
                >= fenwick_view(self.fenwick_tree)[idx as int]) by {
                lemma_sum_range_bounds(
                    fenwick_view(self.fenwick_tree),
                    idx + 1,
                    self.size as int,
                );
            }
        }
        Ok((s - 1) as usize)
    }

    /// The number of ids on the live stack.
    pub fn get_num_elements_in_stack(&self) -> (r: usize)
        requires
            self.wf(),
        ensures
            r == self.num_present(),
            r <= self.size,
    {
        if self.size == 0 {
            proof {
                assert(self.num_present() == 0);
            }
            return 0;
        }
        let s = fenwick_sum(&self.fenwick_tree, 0, self.size);
        proof {
            lemma_sum_range_bounds(fenwick_view(self.fenwick_tree), 0, self.size as int);
        }
        s as usize
    }
}

/// A range sum over all-zero entries is zero.
pub proof fn lemma_sum_range_zero(s: Seq<int>, a: int, b: int)
    requires
        0 <= a <= b <= s.len(),
        forall|i: int| 0 <= i < s.len() ==> #[trigger] s[i] == 0,
    ensures
        sum_range(s, a, b) == 0,
    decreases b - a,
{
    if a < b {
        lemma_sum_range_zero(s, a + 1, b);
    }
}

} // verus!
