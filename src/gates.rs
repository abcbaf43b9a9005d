//! The custom gates of the Merkle-sum-tree chip, each over one row of the five
//! advice columns `(a, b, c, d, e)` (and, for the swap gate, the row below).
use crate::field::{fe_add, fe_mul, fe_sub, fmod, lemma_value_injective, modulus, Fe};
use vstd::arithmetic::div_mod::{
    lemma_fundamental_div_mod, lemma_mul_mod_noop_right, lemma_small_mod, lemma_sub_mod_noop,
};
use vstd::prelude::*;

verus! {

/// One row of the five advice columns.
#[derive(Clone, Copy, Debug, PartialEq, Eq, Structural)]
pub struct Row {
    pub a: Fe,
    pub b: Fe,
    pub c: Fe,
    pub d: Fe,
    pub e: Fe,
}

impl Row {
    pub open spec fn wf(self) -> bool {
        self.a.wf() && self.b.wf() && self.c.wf() && self.d.wf() && self.e.wf()
    }
}

/// `e * (1 - e) = 0`.
pub open spec fn bool_gate_spec(e: int) -> bool {
    fmod(e * (1 - e)) == 0
}

/// `x' - x - e * (y - x)`: the next row's cell `x'` must stay `x` for `e = 0`
/// and become `y` for `e = 1`.
pub open spec fn placement_term(x_next: int, x: int, y: int, e: int) -> int {
    x_next - x - e * (y - x)
}

/// `a' - a - e(c - a) = 0`, `c' - c - e(a - c) = 0`, `b' - b - e(d - b) = 0`
/// and `d' - d - e(b - d) = 0`, with the primed cells taken from the next row.
pub open spec fn swap_gate_spec(cur: Row, next: Row) -> bool {
    let e = cur.e.value();
    &&& fmod(placement_term(next.a.value(), cur.a.value(), cur.c.value(), e)) == 0
    &&& fmod(placement_term(next.c.value(), cur.c.value(), cur.a.value(), e)) == 0
    &&& fmod(placement_term(next.b.value(), cur.b.value(), cur.d.value(), e)) == 0
    &&& fmod(placement_term(next.d.value(), cur.d.value(), cur.b.value(), e)) == 0
}

/// `b + d - e = 0`.
pub open spec fn sum_gate_spec(row: Row) -> bool {
    fmod(row.b.value() + row.d.value() - row.e.value()) == 0
}

/// `c - is_lt = 0`, where `is_lt` is the flag of the less-than gadget.
pub open spec fn lt_gate_spec(row: Row, is_lt: int) -> bool {
    fmod(row.c.value() - is_lt) == 0
}

/// For `x` in `(-r, r)`, `x` vanishes modulo `r` only when it is zero.
pub proof fn lemma_small_vanishes(x: int)
    requires
        -modulus() < x < modulus(),
    ensures
        fmod(x) == 0 <==> x == 0,
{
    let p = modulus();
    lemma_fundamental_div_mod(x, p);
    let q = x / p;
    if x == 0 {
        lemma_small_mod(0, p as nat);
    }
    if fmod(x) == 0 {
        assert(x == p * q);
        assert(x == 0) by (nonlinear_arith)
            requires
                x == p * q,
                p > 0,
                -p < x < p,
        {
            if q >= 1 {
                assert(p * q >= p);
            } else if q <= -1 {
                assert(p * q <= -p);
            }
        }
    }
}

/// For a canonical `e`, `fmod(x - e)` vanishes exactly when `e` is `x` reduced.
pub proof fn lemma_difference_vanishes(x: int, e: int)
    requires
        0 <= e < modulus(),
    ensures
        fmod(x - e) == 0 <==> e == fmod(x),
{
    lemma_sub_mod_noop(x, e, modulus());
    lemma_small_mod(e as nat, modulus() as nat);
    lemma_small_vanishes(fmod(x) - e);
    assert(fmod(fmod(x) - e) == fmod(x - e));
}

/// Evaluates the bool gate on `e`.
pub fn bool_gate(e: Fe) -> (r: bool)
    requires
        e.wf(),
    ensures
        r == bool_gate_spec(e.value()),
{
    let t = fe_sub(Fe::one(), e);
    let m = fe_mul(e, t);
    proof {
        lemma_mul_mod_noop_right(e.value(), 1 - e.value(), modulus());
    }
    m.is_zero()
}

/// Evaluates one placement term of the swap gate.
fn placement(x_next: Fe, x: Fe, y: Fe, e: Fe) -> (r: Fe)
    requires
        x_next.wf(),
        x.wf(),
        y.wf(),
        e.wf(),
    ensures
        r.wf(),
        r.value() == fmod(placement_term(x_next.value(), x.value(), y.value(), e.value())),
{
    let m = fe_mul(e, fe_sub(y, x));
    let r = fe_sub(fe_sub(x_next, x), m);
    proof {
        let p = modulus();
        let u = x_next.value() - x.value();
        let v = e.value() * (y.value() - x.value());
        lemma_mul_mod_noop_right(e.value(), y.value() - x.value(), p);
        lemma_sub_mod_noop(u, v, p);
    }
    r
}

/// Evaluates the swap gate on a row and the row below it.
pub fn swap_gate(cur: &Row, next: &Row) -> (r: bool)
    requires
        cur.wf(),
        next.wf(),
    ensures
        r == swap_gate_spec(*cur, *next),
{
    placement(next.a, cur.a, cur.c, cur.e).is_zero() && placement(next.c, cur.c, cur.a, cur.e).is_zero()
        && placement(next.b, cur.b, cur.d, cur.e).is_zero() && placement(next.d, cur.d, cur.b, cur.e).is_zero()
}

/// Evaluates the sum gate on a row.
pub fn sum_gate(row: &Row) -> (r: bool)
    requires
        row.wf(),
    ensures
        r == sum_gate_spec(*row),
{
    let s = fe_add(row.b, row.d);
    let t = fe_sub(s, row.e);
    proof {
        let p = modulus();
        lemma_sub_mod_noop(row.b.value() + row.d.value(), row.e.value(), p);
        lemma_small_mod(row.e.value() as nat, p as nat);
    }
    t.is_zero()
}

/// Evaluates the lt gate on a row, given the less-than flag.
pub fn lt_gate(row: &Row, is_lt: Fe) -> (r: bool)
    requires
        row.wf(),
        is_lt.wf(),
    ensures
        r == lt_gate_spec(*row, is_lt.value()),
{
    fe_sub(row.c, is_lt).is_zero()
}

/// The bool gate holds at `0` and `1`, and fails at `2`.
pub proof fn lemma_bool_gate_values()
    ensures
        bool_gate_spec(0),
        bool_gate_spec(1),
        !bool_gate_spec(2),
{
    lemma_small_vanishes(-2);
    assert(2int * (1 - 2) == -2);
}

/// The sum gate holds exactly when column `e` is `b + d` reduced modulo `r`.
pub proof fn lemma_sum_gate_exact(row: Row)
    requires
        row.wf(),
    ensures
        sum_gate_spec(row) <==> row.e.value() == fmod(row.b.value() + row.d.value()),
{
    lemma_difference_vanishes(row.b.value() + row.d.value(), row.e.value());
}

/// The row-1 placement that the swap gate expects: `(a, b, c, d)` for a zero
/// direction bit, `(c, d, a, b)` otherwise.
pub open spec fn placed(cur: Row, next: Row) -> bool {
    if cur.e.value() == 0 {
        next.a == cur.a && next.b == cur.b && next.c == cur.c && next.d == cur.d
    } else {
        next.a == cur.c && next.b == cur.d && next.c == cur.a && next.d == cur.b
    }
}

/// For a boolean `e` a placement term vanishes exactly when `x'` is `x`
/// (for `e = 0`) or `y` (for `e = 1`).
proof fn lemma_placement_term(x_next: Fe, x: Fe, y: Fe, e: int)
    requires
        x_next.wf(),
        x.wf(),
        y.wf(),
        e == 0 || e == 1,
    ensures
        fmod(placement_term(x_next.value(), x.value(), y.value(), e)) == 0 <==> x_next == (if e == 0 {
            x
        } else {
            y
        }),
{
    let target = if e == 0 {
        x
    } else {
        y
    };
    if e == 0 {
        assert(0 * (y.value() - x.value()) == 0);
    } else {
        assert(1 * (y.value() - x.value()) == y.value() - x.value());
    }
    assert(placement_term(x_next.value(), x.value(), y.value(), e) == x_next.value() - target.value());
    lemma_small_vanishes(x_next.value() - target.value());
    lemma_value_injective(x_next, target);
}

/// For a boolean direction bit the swap gate holds exactly at the expected
/// placement: `(a, b, c, d)` for `e = 0`, `(c, d, a, b)` for `e = 1`.
pub proof fn lemma_swap_gate(cur: Row, next: Row)
    requires
        cur.wf(),
        next.wf(),
        cur.e.value() == 0 || cur.e.value() == 1,
    ensures
        swap_gate_spec(cur, next) <==> placed(cur, next),
{
    let e = cur.e.value();
    lemma_placement_term(next.a, cur.a, cur.c, e);
    lemma_placement_term(next.c, cur.c, cur.a, e);
    lemma_placement_term(next.b, cur.b, cur.d, e);
    lemma_placement_term(next.d, cur.d, cur.b, e);
}

} // verus!
