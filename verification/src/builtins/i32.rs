use vstd::prelude::*;
use vstd::arithmetic::power::pow;
use crate::builtins::u8::U8Var;
use crate::bvar::{lemma_recorded_single, recorded_op, AllocVar, AllocationMode, BVar};
use crate::constraint_system::{ConstraintSystem, ElemV, Element, TraceEntry};
use crate::errors::Error;
use crate::script::{
    emit_op, emit_push_int, OP_ABS, OP_ADD, OP_DROP, OP_DUP, OP_EQUALVERIFY, OP_FROMALTSTACK,
    OP_GREATERTHANOREQUAL, OP_LESSTHAN, OP_SUB, OP_TOALTSTACK, OP_VERIFY,
};

verus! {

/// The value of a sequence of base-`base` digits, least significant
/// first, read from position `i` on.
pub open spec fn digits_val_from(s: Seq<int>, i: int, base: int) -> int
    decreases s.len() - i when 0 <= i <= s.len()
{
    if i >= s.len() {
        0
    } else {
        s[i] + base * digits_val_from(s, i + 1, base)
    }
}

/// The value of a sequence of base-`base` digits.
pub open spec fn digits_val(s: Seq<int>, base: int) -> int {
    digits_val_from(s, 0, base)
}

/// Appending a digit adds its value at the top position, seen from any
/// starting index.
proof fn lemma_digits_from_ext(s: Seq<int>, b: int, base: int, i: int)
    requires
        0 <= i <= s.len(),
    ensures
        digits_val_from(s + seq![b], i, base) == digits_val_from(s, i, base) + pow(
            base,
            (s.len() - i) as nat,
        ) * b,
    decreases s.len() - i,
{
    reveal(pow);
    let ext = s + seq![b];
    if i == s.len() {
        assert(digits_val_from(ext, i, base) == ext[i] + base * digits_val_from(ext, i + 1, base));
        assert(ext[i] == b);
        assert(digits_val_from(ext, i + 1, base) == 0);
        assert(digits_val_from(s, i, base) == 0);
        assert(pow(base, 0) * b == b);
    } else {
        lemma_digits_from_ext(s, b, base, i + 1);
        assert(digits_val_from(ext, i, base) == ext[i] + base * digits_val_from(ext, i + 1, base));
        assert(ext[i] == s[i]);
        let rest = digits_val_from(s, i + 1, base);
        let p = pow(base, (s.len() - i - 1) as nat);
        assert(base * (rest + p * b) == base * rest + base * (p * b)) by (nonlinear_arith);
        assert(base * (p * b) == (base * p) * b) by (nonlinear_arith);
        assert(pow(base, (s.len() - i) as nat) == base * p);
    }
}

/// Appending a digit adds its value at the top position.
pub proof fn lemma_digits_ext(s: Seq<int>, b: int, base: int)
    ensures
        digits_val(s + seq![b], base) == digits_val(s, base) + pow(base, s.len()) * b,
{
    lemma_digits_from_ext(s, b, base, 0);
}

/// A variable holding one signed 32-bit lane.  The minimum value is
/// excluded: its stack encoding is refused by the narrowing verifier.
pub struct I32Var {
    pub variable: usize,
    pub value: i32,
}

impl BVar for I32Var {
    type Value = i32;

    open spec fn ids(&self) -> Seq<usize> {
        seq![self.variable]
    }

    open spec fn native(&self) -> i32 {
        self.value
    }

    open spec fn wf_in(&self, cs: &ConstraintSystem) -> bool {
        &&& self.variable < cs.memory@.len()
        &&& cs.memory@[self.variable as int]@ == ElemV::Num(self.value as int)
        &&& self.value > i32::MIN
    }

    open spec fn spec_length() -> nat {
        1
    }

    fn variables(&self) -> (r: Vec<usize>) {
        let mut v: Vec<usize> = Vec::new();
        v.push(self.variable);
        proof {
            assert(v@ =~= self.ids());
        }
        v
    }

    fn length() -> (r: usize) {
        1
    }

    proof fn ids_in_range(&self, cs: &ConstraintSystem) {
    }

    proof fn wf_monotone(&self, cs1: &ConstraintSystem, cs2: &ConstraintSystem) {
    }
}

impl AllocVar for I32Var {
    open spec fn valid_value(data: i32) -> bool {
        data > i32::MIN
    }

    open spec fn value_matches(a: i32, b: i32) -> bool {
        a == b
    }

    fn new_variable(cs: &mut ConstraintSystem, data: i32, mode: AllocationMode) -> (r: Result<
        I32Var,
        Error,
    >) {
        let variable = cs.allocate(Element::Num(data), mode)?;
        proof {
            assert(final(cs).memory@[old(cs).memory@.len() as int] == Element::Num(data));
            assert(final(cs).trace@ =~= old(cs).trace@ + crate::bvar::alloc_entries(
                mode,
                old(cs).memory@.len() as int,
                1nat,
            ));
        }
        let r = I32Var { variable, value: data };
        proof {
            assert(I32Var::value_matches(r.native(), data));
        }
        Ok(r)
    }
}

impl I32Var {
    /// The native value assigned to this variable.
    pub fn value(&self) -> (r: i32)
        ensures
            r == self.native(),
    {
        self.value
    }

    /// Records one generic add or subtract against another lane id; the
    /// checked native result is supplied by the caller.
    fn arith(cs: &mut ConstraintSystem, op: u8, a: usize, b: usize, res: i32) -> (r: Result<
        I32Var,
        Error,
    >)
        requires
            old(cs).wf(),
            a < old(cs).memory@.len(),
            b < old(cs).memory@.len(),
            res > i32::MIN,
        ensures
            r is Ok <==> !old(cs).finalized,
            r is Err ==> *final(cs) == *old(cs),
            r matches Ok(v) ==> {
                &&& v.value == res
                &&& v.wf_in(&*final(cs))
                &&& final(cs).wf()
                &&& recorded_op(*old(cs), *final(cs), seq![a, b], seq![v.variable])
            },
    {
        let mut snippet: Vec<u8> = Vec::new();
        emit_op(&mut snippet, op);
        let mut inputs: Vec<usize> = Vec::new();
        inputs.push(a);
        inputs.push(b);
        let ghost inputs_view = inputs@;
        proof {
            assert(inputs_view =~= seq![a, b]);
        }
        cs.insert_script(snippet, inputs)?;
        let ghost mid = *cs;
        let v = I32Var::new_function_output(cs, res)?;
        proof {
            assert(final(cs).trace@[old(cs).trace@.len() as int] == mid.trace@[old(
                cs,
            ).trace@.len() as int]);
            assert(mid.trace@[old(cs).trace@.len() as int] == mid.trace@.last());
            assert(v.variable == v.ids()[0]);
            assert(v.variable == old(cs).memory@.len());
            assert(final(cs).trace@.subrange(0, old(cs).trace@.len() as int) =~= old(cs).trace@);
            assert(final(cs).trace@[old(cs).trace@.len() as int + 1] == TraceEntry::DeclareOutput(
                v.variable,
            ));
            lemma_recorded_single(*old(cs), *final(cs), inputs_view, v.variable);
        }
        Ok(v)
    }

    /// Records the checked signed addition of two lanes.
    pub fn add(&self, cs: &mut ConstraintSystem, rhs: &I32Var) -> (r: Result<I32Var, Error>)
        requires
            self.wf_in(old(cs)),
            rhs.wf_in(old(cs)),
            old(cs).wf(),
        ensures
            r is Ok <==> !old(cs).finalized && i32::MIN < self.value + rhs.value <= i32::MAX,
            r is Err ==> *final(cs) == *old(cs),
            r matches Ok(v) ==> {
                &&& v.value == self.value + rhs.value
                &&& v.wf_in(&*final(cs))
                &&& final(cs).wf()
                &&& recorded_op(
                    *old(cs),
                    *final(cs),
                    seq![self.variable, rhs.variable],
                    seq![v.variable],
                )
            },
    {
        let res = match self.value.checked_add(rhs.value) {
            Some(v) => v,
            None => {
                return Err(Error::Overflow);
            },
        };
        if res == i32::MIN {
            return Err(Error::Overflow);
        }
        Self::arith(cs, OP_ADD, self.variable, rhs.variable, res)
    }

    /// Records the checked addition of a byte lane to a signed lane.
    pub fn add_u8(&self, cs: &mut ConstraintSystem, rhs: &U8Var) -> (r: Result<I32Var, Error>)
        requires
            self.wf_in(old(cs)),
            rhs.wf_in(old(cs)),
            old(cs).wf(),
        ensures
            r is Ok <==> !old(cs).finalized && i32::MIN < self.value + rhs.value <= i32::MAX,
            r is Err ==> *final(cs) == *old(cs),
            r matches Ok(v) ==> {
                &&& v.value == self.value + rhs.value
                &&& v.wf_in(&*final(cs))
                &&& final(cs).wf()
                &&& recorded_op(
                    *old(cs),
                    *final(cs),
                    seq![self.variable, rhs.variable],
                    seq![v.variable],
                )
            },
    {
        let res = match self.value.checked_add(rhs.value as i32) {
            Some(v) => v,
            None => {
                return Err(Error::Overflow);
            },
        };
        Self::arith(cs, OP_ADD, self.variable, rhs.variable, res)
    }

    /// Records the checked signed subtraction of two lanes.
    pub fn sub(&self, cs: &mut ConstraintSystem, rhs: &I32Var) -> (r: Result<I32Var, Error>)
        requires
            self.wf_in(old(cs)),
            rhs.wf_in(old(cs)),
            old(cs).wf(),
        ensures
            r is Ok <==> !old(cs).finalized && i32::MIN < self.value - rhs.value <= i32::MAX,
            r is Err ==> *final(cs) == *old(cs),
            r matches Ok(v) ==> {
                &&& v.value == self.value - rhs.value
                &&& v.wf_in(&*final(cs))
                &&& final(cs).wf()
                &&& recorded_op(
                    *old(cs),
                    *final(cs),
                    seq![self.variable, rhs.variable],
                    seq![v.variable],
                )
            },
    {
        let res = match self.value.checked_sub(rhs.value) {
            Some(v) => v,
            None => {
                return Err(Error::Overflow);
            },
        };
        if res == i32::MIN {
            return Err(Error::Overflow);
        }
        Self::arith(cs, OP_SUB, self.variable, rhs.variable, res)
    }

    /// Records the checked subtraction of a byte lane from a signed lane.
    pub fn sub_u8(&self, cs: &mut ConstraintSystem, rhs: &U8Var) -> (r: Result<I32Var, Error>)
        requires
            self.wf_in(old(cs)),
            rhs.wf_in(old(cs)),
            old(cs).wf(),
        ensures
            r is Ok <==> !old(cs).finalized && i32::MIN < self.value - rhs.value <= i32::MAX,
            r is Err ==> *final(cs) == *old(cs),
            r matches Ok(v) ==> {
                &&& v.value == self.value - rhs.value
                &&& v.wf_in(&*final(cs))
                &&& final(cs).wf()
                &&& recorded_op(
                    *old(cs),
                    *final(cs),
                    seq![self.variable, rhs.variable],
                    seq![v.variable],
                )
            },
    {
        let res = match self.value.checked_sub(rhs.value as i32) {
            Some(v) => v,
            None => {
                return Err(Error::Overflow);
            },
        };
        if res == i32::MIN {
            return Err(Error::Overflow);
        }
        Self::arith(cs, OP_SUB, self.variable, rhs.variable, res)
    }

    /// Records the narrowing verifier: the abs opcode refuses the
    /// minimum-value encoding, so completing the snippet certifies the
    /// lane holds a proper signed 32-bit value.
    pub fn check_format(&self, cs: &mut ConstraintSystem) -> (r: Result<(), Error>)
        requires
            self.wf_in(old(cs)),
            old(cs).wf(),
        ensures
            r is Ok <==> !old(cs).finalized,
            r is Err ==> *final(cs) == *old(cs),
            r is Ok ==> {
                &&& final(cs).wf()
                &&& final(cs).memory@ == old(cs).memory@
                &&& final(cs).finalized == false
                &&& crate::bvar::recorded_op_bytes(
                    *old(cs),
                    *final(cs),
                    seq![OP_ABS, OP_DROP],
                    seq![self.variable],
                    seq![],
                )
            },
    {
        let mut snippet: Vec<u8> = Vec::new();
        emit_op(&mut snippet, OP_ABS);
        emit_op(&mut snippet, OP_DROP);
        let mut inputs: Vec<usize> = Vec::new();
        inputs.push(self.variable);
        let ghost inputs_view = inputs@;
        let ghost snippet_view = snippet@;
        cs.insert_script(snippet, inputs)?;
        proof {
            assert(final(cs).trace@.subrange(0, old(cs).trace@.len() as int) =~= old(cs).trace@);
            assert(inputs_view =~= seq![self.variable]);
            assert(snippet_view =~= seq![OP_ABS, OP_DROP]);
        }
        Ok(())
    }

    /// Decomposes a nonnegative lane into base-2^l digit hints and
    /// records the verifier that re-checks the bounds of every digit and
    /// the Horner recomposition.  Every digit lies below 2^l and the
    /// digits recompose to the value.
    #[verifier::rlimit(100)]
    pub fn to_positive_limbs(&self, cs: &mut ConstraintSystem, l: u32) -> (r: Result<
        Vec<U8Var>,
        Error,
    >)
        requires
            self.wf_in(old(cs)),
            old(cs).wf(),
            1 <= l <= 8,
            self.value >= 0,
        ensures
            r is Ok <==> !old(cs).finalized,
            r is Err ==> *final(cs) == *old(cs),
            r matches Ok(vars) ==> {
                &&& vars@.len() == (31 + l as int) / (l as int)
                &&& (forall|k: int|
                    0 <= k < vars@.len() ==> (#[trigger] vars@[k].value as int) < pow(2, l as nat))
                &&& digits_val(vars@.map_values(|v: U8Var| v.value as int), pow(2, l as nat))
                    == self.value
                &&& (forall|k: int|
                    0 <= k < vars@.len() ==> (#[trigger] vars@[k]).wf_in(&*final(cs)))
                &&& final(cs).wf()
                &&& final(cs).finalized == false
                &&& old(cs).memory@.len() <= final(cs).memory@.len()
                &&& forall|i: int|
                    0 <= i < old(cs).memory@.len() ==> #[trigger] final(cs).memory@[i]@ == old(
                        cs,
                    ).memory@[i]@
            },
    {
        if cs.finalized {
            return Err(Error::FinalizedMutation);
        }
        let n = (32 + l - 1) / l;
        let base: u32 = 1u32 << l;
        proof {
            vstd::arithmetic::power2::lemma2_to64();
            assert(vstd::arithmetic::power2::pow2(l as nat) <= 256) by {
                if l < 8 {
                    vstd::arithmetic::power2::lemma_pow2_strictly_increases(l as nat, 8nat);
                }
            }
            assert(vstd::arithmetic::power2::pow2(l as nat) >= 2) by {
                if l > 1 {
                    vstd::arithmetic::power2::lemma_pow2_strictly_increases(1nat, l as nat);
                }
            }
            vstd::bits::lemma_u32_shl_is_mul(1u32, l);
            vstd::arithmetic::power2::lemma_pow2(l as nat);
        }
        let mut cur: u32 = self.value as u32;
        let mut res_vars: Vec<U8Var> = Vec::new();
        let mut i: u32 = 0;
        let ghost orig = self.value as int;
        proof {
            reveal(pow);
            assert(pow(base as int, 0) == 1);
            assert(digits_val(Seq::<int>::empty(), base as int) == 0);
            assert(res_vars@.map_values(|v: U8Var| v.value as int) =~= Seq::<int>::empty());
        }
        while i < n
            invariant
                0 <= i <= n,
                n == (31 + l as int) / (l as int),
                1 <= l <= 8,
                base == pow(2, l as nat),
                2 <= base <= 256,
                res_vars@.len() == i,
                orig == digits_val(res_vars@.map_values(|v: U8Var| v.value as int), base as int)
                    + cur * pow(base as int, i as nat),
                forall|k: int|
                    0 <= k < i ==> (#[trigger] res_vars@[k].value as int) < base,
                forall|k: int| 0 <= k < i ==> (#[trigger] res_vars@[k]).wf_in(&*cs),
                cs.wf(),
                !cs.finalized,
                forall|j: int|
                    0 <= j < old(cs).memory@.len() ==> #[trigger] cs.memory@[j]@ == old(
                        cs,
                    ).memory@[j]@,
                old(cs).memory@.len() <= cs.memory@.len(),
                self.wf_in(&*cs),
                orig == self.value,
                orig >= 0,
            decreases n - i,
        {
            let limb = cur % base;
            let digit = limb as u8;
            let ghost pre_vars = res_vars@;
            let ghost pre_cs = *cs;
            let var = match U8Var::new_hint(cs, digit) {
                Ok(v) => v,
                Err(_) => {
                    proof {
                        assert(false);
                    }
                    return Err(Error::FinalizedMutation);
                },
            };
            res_vars.push(var);
            let new_cur = cur / base;
            proof {
                reveal(pow);
                let ds = pre_vars.map_values(|v: U8Var| v.value as int);
                let ds2 = res_vars@.map_values(|v: U8Var| v.value as int);
                assert(ds2 =~= ds + seq![limb as int]);
                lemma_digits_ext(ds, limb as int, base as int);
                assert(cur == base * (cur / base) + cur % base) by (nonlinear_arith)
                    requires
                        base >= 2,
                ;
                assert(pow(base as int, (i + 1) as nat) == base * pow(base as int, i as nat));
                assert(cur * pow(base as int, i as nat) == (base * (cur / base) + cur % base)
                    * pow(base as int, i as nat));
                assert((base * (cur / base) + cur % base) * pow(base as int, i as nat) == (base * (
                cur / base)) * pow(base as int, i as nat) + (cur % base) * pow(base as int, i as nat))
                    by (nonlinear_arith);
                assert((base * (cur / base)) * pow(base as int, i as nat) == (cur / base) * (base
                    * pow(base as int, i as nat))) by (nonlinear_arith);
                assert(ds.len() == i);
                assert((cur / base) * (base * pow(base as int, i as nat)) == (cur / base) * pow(
                    base as int,
                    (i + 1) as nat,
                )) by (nonlinear_arith)
                    requires
                        pow(base as int, (i + 1) as nat) == base * pow(base as int, i as nat),
                ;
                assert(digits_val(ds2, base as int) == digits_val(ds, base as int) + pow(
                    base as int,
                    i as nat,
                ) * (limb as int));
                assert(pow(base as int, i as nat) * (limb as int) == (cur % base) * pow(
                    base as int,
                    i as nat,
                )) by (nonlinear_arith)
                    requires
                        limb == cur % base,
                ;
                assert(orig == digits_val(ds2, base as int) + (cur / base) * pow(
                    base as int,
                    (i + 1) as nat,
                ));
            }
            cur = new_cur;
            i = i + 1;
        }
        proof {
            reveal(pow);
            assert(cur == 0) by {
                assert(orig < 0x8000_0000);
                assert(pow(2, (l * n) as nat) >= 0x1_0000_0000) by {
                    assert(l * n >= 32) by (nonlinear_arith)
                        requires
                            n == (31 + l as int) / (l as int) && 1 <= l <= 8u32,
                    ;
                    vstd::arithmetic::power2::lemma_pow2(32);
                    vstd::arithmetic::power2::lemma2_to64();
                    vstd::arithmetic::power::lemma_pow_increases(2nat, 32nat, (l * n) as nat);
                }
                assert(pow(base as int, n as nat) == pow(2, (l * n) as nat)) by {
                    vstd::arithmetic::power::lemma_pow_multiplies(2, l as nat, n as nat);
                }
                if cur > 0 {
                    assert(cur * pow(base as int, n as nat) >= pow(base as int, n as nat))
                        by (nonlinear_arith)
                        requires
                            cur >= 1 && pow(base as int, n as nat) >= 0,
                    ;
                    lemma_digits_nonneg(
                        res_vars@.map_values(|v: U8Var| v.value as int),
                        0,
                        base as int,
                    );
                }
            }
        }
        // the emitted verifier re-checks every digit and the Horner sum
        let mut snippet: Vec<u8> = Vec::new();
        let mut k: u32 = 0;
        while k < n
            invariant
                0 <= k <= n,
                1 <= l <= 8,
            decreases n - k,
        {
            emit_op(&mut snippet, OP_DUP);
            emit_push_int(&mut snippet, 0);
            emit_op(&mut snippet, OP_GREATERTHANOREQUAL);
            emit_op(&mut snippet, OP_VERIFY);
            emit_op(&mut snippet, OP_DUP);
            emit_push_int(&mut snippet, base as i64);
            emit_op(&mut snippet, OP_LESSTHAN);
            emit_op(&mut snippet, OP_VERIFY);
            if k != 0 {
                emit_op(&mut snippet, OP_FROMALTSTACK);
                emit_op(&mut snippet, OP_ADD);
            }
            if k != n - 1 {
                let mut d: u32 = 0;
                while d < l
                    invariant
                        0 <= d <= l,
                    decreases l - d,
                {
                    emit_op(&mut snippet, OP_DUP);
                    emit_op(&mut snippet, OP_ADD);
                    d = d + 1;
                }
                emit_op(&mut snippet, OP_TOALTSTACK);
            }
            k = k + 1;
        }
        emit_op(&mut snippet, OP_EQUALVERIFY);
        let mut inputs: Vec<usize> = Vec::new();
        inputs.push(self.variable);
        let mut k: usize = 0;
        while k < res_vars.len()
            invariant
                0 <= k <= res_vars@.len(),
                inputs@.len() == k + 1,
                inputs@[0] == self.variable,
                forall|d: int| 1 <= d < k + 1 ==> #[trigger] inputs@[d] == res_vars@[d - 1].variable,
                forall|d: int|
                    0 <= d < res_vars@.len() ==> (#[trigger] res_vars@[d]).wf_in(&*cs),
            decreases res_vars@.len() - k,
        {
            let id = res_vars[k].variable;
            inputs.push(id);
            k = k + 1;
        }
        proof {
            assert(forall|d: int|
                0 <= d < inputs@.len() ==> #[trigger] inputs@[d] < cs.memory@.len());
        }
        match cs.insert_script(snippet, inputs) {
            Ok(_) => {},
            Err(_) => {
                proof {
                    assert(false);
                }
                return Err(Error::FinalizedMutation);
            },
        }
        Ok(res_vars)
    }
}

/// Digits at or above zero give a nonnegative value.
proof fn lemma_digits_nonneg(s: Seq<int>, i: int, base: int)
    requires
        0 <= i <= s.len(),
        base >= 2,
        forall|k: int| 0 <= k < s.len() ==> #[trigger] s[k] >= 0,
    ensures
        digits_val_from(s, i, base) >= 0,
    decreases s.len() - i,
{
    if i < s.len() {
        lemma_digits_nonneg(s, i + 1, base);
        assert(base * digits_val_from(s, i + 1, base) >= 0) by (nonlinear_arith)
            requires
                base >= 2 && digits_val_from(s, i + 1, base) >= 0,
        ;
    }
}


impl crate::bvar::StoredVar for I32Var {
    open spec fn elems_of(v: i32) -> Seq<crate::constraint_system::ElemV> {
        seq![crate::constraint_system::ElemV::Num(v as int)]
    }

    open spec fn elems_ok(e: Seq<crate::constraint_system::ElemV>) -> bool {
        e.len() == 1 && (match e[0] {
            crate::constraint_system::ElemV::Num(n) => i32::MIN < n <= i32::MAX,
            crate::constraint_system::ElemV::Str(_) => false,
        })
    }

    proof fn wf_elems(&self, cs: &ConstraintSystem) {
        assert(self.ids().map_values(|id: usize| cs.memory@[id as int]@) =~= Self::elems_of(
            self.native(),
        ));
    }

    proof fn elems_of_ok(v: i32) {
    }

    proof fn elems_of_matches(a: i32, b: i32) {
    }

    fn from_elems(e: &Vec<crate::constraint_system::Element>) -> (r: Option<i32>) {
        let ghost row = e@.map_values(|x: crate::constraint_system::Element| x@);
        if e.len() == 1 {
            match &e[0] {
                crate::constraint_system::Element::Num(x) => {
                    let x = *x;
                    if x > i32::MIN {
                        let v: i32 = x;
                        proof {
                            assert(Self::elems_of(v) =~= row);
                        }
                        return Some(v);
                    }
                },
                _ => {},
            }
        }
        proof {
            assert(!Self::elems_ok(row));
        }
        None
    }
}

} // verus!
