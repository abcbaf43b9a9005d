//! Elements of the scalar field of BN256, held as four canonical 64-bit limbs.
use halo2curves::bn256::Fr;
use vstd::prelude::*;

verus! {

/// halo2curves' BN256 scalar field element, carried opaquely.
#[verifier::external_type_specification]
#[verifier::external_body]
pub struct ExFr(Fr);

/// The prime order `r` of the BN256 scalar field.
pub open spec fn modulus() -> int {
    limbs_value(0x43e1f593f0000001, 0x2833e84879b97091, 0xb85045b68181585d, 0x30644e72e131a029)
}

/// Reduction of an integer into `[0, r)`.
pub open spec fn fmod(x: int) -> int {
    x % modulus()
}

/// A field element: `l0` is the least significant limb.
#[derive(Clone, Copy, Debug, PartialEq, Eq, Structural)]
pub struct Fe {
    pub l0: u64,
    pub l1: u64,
    pub l2: u64,
    pub l3: u64,
}

pub open spec fn limbs_value(l0: int, l1: int, l2: int, l3: int) -> int {
    l0 + 0x1_0000_0000_0000_0000 * (l1 + 0x1_0000_0000_0000_0000 * (l2 + 0x1_0000_0000_0000_0000 * l3))
}

impl Fe {
    /// The integer that the limbs encode.
    pub open spec fn value(self) -> int {
        limbs_value(self.l0 as int, self.l1 as int, self.l2 as int, self.l3 as int)
    }

    /// The encoding is canonical: the integer is below the modulus.
    pub open spec fn wf(self) -> bool {
        0 <= self.value() < modulus()
    }

    pub fn zero() -> (r: Fe)
        ensures
            r.wf(),
            r.value() == 0,
    {
        Fe { l0: 0, l1: 0, l2: 0, l3: 0 }
    }

    pub fn one() -> (r: Fe)
        ensures
            r.wf(),
            r.value() == 1,
    {
        Fe { l0: 1, l1: 0, l2: 0, l3: 0 }
    }

    pub fn from_u64(v: u64) -> (r: Fe)
        ensures
            r.wf(),
            r.value() == v,
    {
        Fe { l0: v, l1: 0, l2: 0, l3: 0 }
    }

    /// Builds an element from little-endian limbs, or `None` when they
    /// encode an integer that is not below the modulus.
    pub fn from_limbs(l: [u64; 4]) -> (r: Option<Fe>)
        ensures
            r is Some <==> limbs_value(l[0] as int, l[1] as int, l[2] as int, l[3] as int) < modulus(),
            r matches Some(f) ==> f.wf() && f.l0 == l[0] && f.l1 == l[1] && f.l2 == l[2] && f.l3 == l[3],
    {
        let f = Fe { l0: l[0], l1: l[1], l2: l[2], l3: l[3] };
        let below = if f.l3 != 0x30644e72e131a029u64 {
            f.l3 < 0x30644e72e131a029u64
        } else if f.l2 != 0xb85045b68181585du64 {
            f.l2 < 0xb85045b68181585du64
        } else if f.l1 != 0x2833e84879b97091u64 {
            f.l1 < 0x2833e84879b97091u64
        } else {
            f.l0 < 0x43e1f593f0000001u64
        };
        if below {
            Some(f)
        } else {
            None
        }
    }

    /// The little-endian limbs.
    pub fn limbs(&self) -> (r: [u64; 4])
        ensures
            r[0] == self.l0 && r[1] == self.l1 && r[2] == self.l2 && r[3] == self.l3,
    {
        [self.l0, self.l1, self.l2, self.l3]
    }

    pub fn is_zero(&self) -> (r: bool)
        ensures
            r == (self.value() == 0),
    {
        self.l0 == 0 && self.l1 == 0 && self.l2 == 0 && self.l3 == 0
    }

    /// Order of the encoded integers.
    pub fn less_than(&self, o: &Fe) -> (r: bool)
        ensures
            r == (self.value() < o.value()),
    {
        if self.l3 != o.l3 {
            self.l3 < o.l3
        } else if self.l2 != o.l2 {
            self.l2 < o.l2
        } else if self.l1 != o.l1 {
            self.l1 < o.l1
        } else {
            self.l0 < o.l0
        }
    }

    /// Equality of the encoded integers.
    pub fn same(&self, o: &Fe) -> (r: bool)
        ensures
            r == (self.value() == o.value()),
    {
        proof {
            lemma_value_injective(*self, *o);
        }
        self.l0 == o.l0 && self.l1 == o.l1 && self.l2 == o.l2 && self.l3 == o.l3
    }
}

/// Two limb vectors that encode one integer are equal.
pub proof fn lemma_value_injective(x: Fe, y: Fe)
    ensures
        x.value() == y.value() <==> x == y,
{
    if x.value() == y.value() {
        let b: int = 0x1_0000_0000_0000_0000;
        let hx = x.l1 + b * (x.l2 + b * x.l3);
        let hy = y.l1 + b * (y.l2 + b * y.l3);
        assert(x.l0 == y.l0 && hx == hy) by (nonlinear_arith)
            requires
                x.l0 + b * hx == y.l0 + b * hy,
                0 <= x.l0 < b,
                0 <= y.l0 < b,
                b == 0x1_0000_0000_0000_0000,
        ;
        let gx = x.l2 + b * x.l3;
        let gy = y.l2 + b * y.l3;
        assert(x.l1 == y.l1 && gx == gy) by (nonlinear_arith)
            requires
                x.l1 + b * gx == y.l1 + b * gy,
                0 <= x.l1 < b,
                0 <= y.l1 < b,
                b == 0x1_0000_0000_0000_0000,
        ;
        assert(x.l2 == y.l2 && x.l3 == y.l3) by (nonlinear_arith)
            requires
                x.l2 + b * x.l3 == y.l2 + b * y.l3,
                0 <= x.l2 < b,
                0 <= y.l2 < b,
                b == 0x1_0000_0000_0000_0000,
        ;
    }
}

/// Relies on halo2curves' `Fr::from_raw`, `+` on `Fr` and `Fr -> [u64; 4]`:
/// addition modulo `r`, read back as canonical limbs.
#[verifier::external_body]
pub(crate) fn fe_add(a: Fe, b: Fe) -> (r: Fe)
    requires
        a.wf(),
        b.wf(),
    ensures
        r.wf(),
        r.value() == fmod(a.value() + b.value()),
{
    let s = Fr::from_raw([a.l0, a.l1, a.l2, a.l3]) + Fr::from_raw([b.l0, b.l1, b.l2, b.l3]);
    let l: [u64; 4] = s.into();
    Fe { l0: l[0], l1: l[1], l2: l[2], l3: l[3] }
}

/// Relies on halo2curves' `Fr::from_raw`, `-` on `Fr` and `Fr -> [u64; 4]`:
/// subtraction modulo `r`, read back as canonical limbs.
#[verifier::external_body]
pub(crate) fn fe_sub(a: Fe, b: Fe) -> (r: Fe)
    requires
        a.wf(),
        b.wf(),
    ensures
        r.wf(),
        r.value() == fmod(a.value() - b.value()),
{
    let s = Fr::from_raw([a.l0, a.l1, a.l2, a.l3]) - Fr::from_raw([b.l0, b.l1, b.l2, b.l3]);
    let l: [u64; 4] = s.into();
    Fe { l0: l[0], l1: l[1], l2: l[2], l3: l[3] }
}

/// Relies on halo2curves' `Fr::from_raw`, `*` on `Fr` and `Fr -> [u64; 4]`:
/// multiplication modulo `r`, read back as canonical limbs.
#[verifier::external_body]
pub(crate) fn fe_mul(a: Fe, b: Fe) -> (r: Fe)
    requires
        a.wf(),
        b.wf(),
    ensures
        r.wf(),
        r.value() == fmod(a.value() * b.value()),
{
    let s = Fr::from_raw([a.l0, a.l1, a.l2, a.l3]) * Fr::from_raw([b.l0, b.l1, b.l2, b.l3]);
    let l: [u64; 4] = s.into();
    Fe { l0: l[0], l1: l[1], l2: l[2], l3: l[3] }
}

} // verus!
