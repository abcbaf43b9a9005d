//! The 8-byte less-than gadget: `lhs < rhs` is witnessed by a boolean flag
//! `lt` and a difference `diff` that decomposes into eight bytes, under the
//! constraints `lt * (1 - lt) = 0` and `lhs - rhs - diff + lt * 2^64 = 0`.
//! `lt_assign` computes the witness and `lt_check` evaluates the
//! constraints; the lemmas at the end show that a flag of `1` is attainable
//! exactly when `lhs < rhs`, for operands below `2^64`.
use crate::field::{fe_add, fe_mul, fe_sub, fmod, modulus, Fe};
use crate::gates::{bool_gate, bool_gate_spec, lemma_difference_vanishes, lemma_small_vanishes};
use vstd::arithmetic::div_mod::{
    lemma_add_mod_noop, lemma_fundamental_div_mod_converse, lemma_small_mod, lemma_sub_mod_noop,
};
use vstd::prelude::*;

verus! {

/// `256^8`, the range of the byte decomposition.
pub open spec fn lt_range() -> int {
    0x1_0000_0000_0000_0000
}

/// The gadget's constraints on `(lhs, rhs)` with witness `(lt, diff)`.
pub open spec fn lt_gadget_spec(lhs: int, rhs: int, lt: int, diff: int) -> bool {
    &&& bool_gate_spec(lt)
    &&& 0 <= diff < lt_range()
    &&& fmod(lhs - rhs - diff + lt * lt_range()) == 0
}

/// The gadget's witness: the flag and the eight bytes of the difference,
/// packed little-endian.
#[derive(Clone, Copy, Debug, PartialEq, Eq, Structural)]
pub struct LtWitness {
    pub lt: Fe,
    pub diff: u64,
}

/// Computes the witness for `lhs < rhs`: the flag is the comparison of the
/// two field elements, and `diff` the low eight bytes of
/// `lhs - rhs + lt * 2^64`.
pub fn lt_assign(lhs: Fe, rhs: Fe) -> (r: LtWitness)
    requires
        lhs.wf(),
        rhs.wf(),
    ensures
        r.lt.wf(),
        r.lt.value() == (if lhs.value() < rhs.value() { 1int } else { 0int }),
        r.diff == fmod(lhs.value() - rhs.value() + r.lt.value() * lt_range()) % lt_range(),
        lhs.value() < lt_range() && rhs.value() < lt_range() ==> lt_gadget_spec(
            lhs.value(),
            rhs.value(),
            r.lt.value(),
            r.diff as int,
        ),
{
    let is_lt = lhs.less_than(&rhs);
    let lt = if is_lt {
        Fe::one()
    } else {
        Fe::zero()
    };
    let shift = if is_lt {
        Fe { l0: 0, l1: 1, l2: 0, l3: 0 }
    } else {
        Fe::zero()
    };
    let d = fe_sub(lhs, rhs);
    let x = fe_add(d, shift);
    proof {
        let p = modulus();
        let l = lhs.value();
        let h = rhs.value();
        let ltv = lt.value();
        assert(shift.value() == ltv * lt_range());
        lemma_small_mod(shift.value() as nat, p as nat);
        lemma_add_mod_noop(l - h, shift.value(), p);
        lemma_small_mod(fmod(l - h) as nat, p as nat);
        assert(x.value() == fmod(l - h + ltv * lt_range()));
        let hi = x.l1 + lt_range() * (x.l2 + lt_range() * x.l3);
        lemma_fundamental_div_mod_converse(x.value(), lt_range(), hi, x.l0 as int);
        if l < lt_range() && h < lt_range() {
            let y = l - h + ltv * lt_range();
            assert(0 <= y < lt_range());
            lemma_small_mod(y as nat, p as nat);
            lemma_small_mod(y as nat, lt_range() as nat);
            assert(x.l0 == y);
            assert(l - h - x.l0 + ltv * lt_range() == 0);
            lemma_small_vanishes(0);
            lemma_small_vanishes(-2);
            assert(bool_gate_spec(ltv)) by {
                assert(ltv * (1 - ltv) == 0);
            }
        }
    }
    LtWitness { lt, diff: x.l0 }
}

/// Evaluates the gadget's constraints on `(lhs, rhs)` and a witness.
pub fn lt_check(lhs: Fe, rhs: Fe, w: &LtWitness) -> (r: bool)
    requires
        lhs.wf(),
        rhs.wf(),
        w.lt.wf(),
    ensures
        r == lt_gadget_spec(lhs.value(), rhs.value(), w.lt.value(), w.diff as int),
{
    let range = Fe { l0: 0, l1: 1, l2: 0, l3: 0 };
    let s = fe_mul(w.lt, range);
    let t = fe_sub(fe_sub(lhs, rhs), Fe::from_u64(w.diff));
    let u = fe_add(t, s);
    proof {
        let p = modulus();
        let a = lhs.value() - rhs.value();
        let dv = w.diff as int;
        let sv = w.lt.value() * lt_range();
        lemma_small_mod(dv as nat, p as nat);
        lemma_sub_mod_noop(a, dv, p);
        lemma_add_mod_noop(a - dv, sv, p);
    }
    bool_gate(w.lt) && u.is_zero()
}

/// Completeness at the boundary: for `lhs < rhs`, both below `2^64`, the flag
/// `1` with the difference `lhs - rhs + 2^64` meets the constraints.
pub proof fn lemma_lt_complete(lhs: int, rhs: int)
    requires
        0 <= lhs < rhs < lt_range(),
    ensures
        lt_gadget_spec(lhs, rhs, 1, lhs - rhs + lt_range()),
{
    lemma_small_vanishes(0);
    assert(1int * (1 - 1) == 0);
}

/// Soundness: for operands below `2^64`, no witness with flag `1` meets the
/// constraints unless `lhs < rhs`; so `lhs = rhs` and `lhs = rhs + 1` admit none.
pub proof fn lemma_lt_sound(lhs: int, rhs: int, lt: int, diff: int)
    requires
        0 <= lhs < lt_range(),
        0 <= rhs < lt_range(),
        0 <= lt < modulus(),
        fmod(1 - lt) == 0,
        lt_gadget_spec(lhs, rhs, lt, diff),
    ensures
        lhs < rhs,
{
    lemma_small_mod(1, modulus() as nat);
    lemma_difference_vanishes(1, lt);
    assert(lt == 1);
    lemma_small_vanishes(lhs - rhs - diff + lt_range());
}

} // verus!
