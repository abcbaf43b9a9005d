//! The 4-to-1 Poseidon compression function (width 5, rate 4) over BN256's
//! scalar field.
use crate::field::{lemma_value_injective, Fe};
use halo2_gadgets::poseidon::primitives::{generate_constants, ConstantLength, Mds, Spec};
use halo2curves::bn256::Fr;
use halo2curves::ff::Field;
use vstd::prelude::*;

verus! {

/// Number of full rounds of the permutation.
pub const FULL_ROUNDS: usize = 8;

/// Number of partial rounds of the permutation.
pub const PARTIAL_ROUNDS: usize = 60;

/// Parameters of the width-5, rate-4 permutation over BN256's scalar field:
/// 8 full and 60 partial rounds with the S-box `x^5`.
#[derive(Debug, Clone, Copy)]
pub struct MySpec;

impl Spec<Fr, 5, 4> for MySpec {
    #[verifier::external_body]
    fn full_rounds() -> usize {
        FULL_ROUNDS
    }

    #[verifier::external_body]
    fn partial_rounds() -> usize {
        PARTIAL_ROUNDS
    }

    /// Relies on ff's `Field::pow_vartime`: the S-box `x^5`.
    #[verifier::external_body]
    fn sbox(val: Fr) -> Fr {
        val.pow_vartime([5])
    }

    /// Index of the MDS candidate of the Grain generator that is taken. The
    /// first candidate is assumed to be secure; this is not checked here.
    #[verifier::external_body]
    fn secure_mds() -> usize {
        0
    }

    /// Relies on halo2_poseidon's `generate_constants`: round constants, MDS
    /// matrix and its inverse, generated by the Grain generator for this width
    /// and these round counts on each call, rather than read from vendored
    /// tables.
    #[verifier::external_body]
    fn constants() -> (Vec<[Fr; 5]>, Mds<Fr, 5>, Mds<Fr, 5>) {
        generate_constants::<Fr, MySpec, 5, 4>()
    }
}

/// The Poseidon compression of four field elements (given by their values).
pub uninterp spec fn poseidon_of(a: int, b: int, c: int, d: int) -> int;

/// Relies on halo2_poseidon's `Hash::<Fr, MySpec, ConstantLength<4>, 5, 4>::init`
/// and `hash`: a sponge over the four inputs with constant-length padding,
/// whose result is a field element that depends on the inputs alone.
#[verifier::external_body]
fn poseidon_hash(a: Fe, b: Fe, c: Fe, d: Fe) -> (r: Fe)
    requires
        a.wf(),
        b.wf(),
        c.wf(),
        d.wf(),
    ensures
        r.wf(),
        r.value() == poseidon_of(a.value(), b.value(), c.value(), d.value()),
{
    let msg = [
        Fr::from_raw([a.l0, a.l1, a.l2, a.l3]),
        Fr::from_raw([b.l0, b.l1, b.l2, b.l3]),
        Fr::from_raw([c.l0, c.l1, c.l2, c.l3]),
        Fr::from_raw([d.l0, d.l1, d.l2, d.l3]),
    ];
    let h = halo2_gadgets::poseidon::primitives::Hash::<Fr, MySpec, ConstantLength<4>, 5, 4>::init().hash(msg);
    let l: [u64; 4] = h.into();
    Fe { l0: l[0], l1: l[1], l2: l[2], l3: l[3] }
}

/// The chip's parameters: state width, rate and number of inputs.
#[derive(Clone, Copy, Debug, PartialEq, Eq, Structural)]
pub struct PoseidonConfig {
    pub width: usize,
    pub rate: usize,
    pub arity: usize,
}

impl PoseidonConfig {
    /// The one parameter set the round tables are made for.
    pub open spec fn valid(self) -> bool {
        self.width == 5 && self.rate == 4 && self.arity == 4
    }
}

/// A 4-to-1 compression function over the field.
#[derive(Clone, Copy, Debug)]
pub struct PoseidonChip {
    config: PoseidonConfig,
}

impl PoseidonChip {
    pub closed spec fn spec_config(self) -> PoseidonConfig {
        self.config
    }

    pub fn construct(config: PoseidonConfig) -> (r: Self)
        requires
            config.valid(),
        ensures
            r.spec_config() == config,
    {
        PoseidonChip { config }
    }

    /// The chip's parameters. Only width 5, rate 4 and 4 inputs are admitted:
    /// the round tables exist for that set alone, and a caller with other
    /// values has a configuration error to report before any proof.
    pub fn configure(width: usize, rate: usize, arity: usize) -> (r: PoseidonConfig)
        requires
            width == 5,
            rate == 4,
            arity == 4,
        ensures
            r.valid(),
            r.width == width && r.rate == rate && r.arity == arity,
    {
        PoseidonConfig { width, rate, arity }
    }

    pub fn config(&self) -> (r: PoseidonConfig)
        ensures
            r == self.spec_config(),
    {
        self.config
    }

    /// Compresses four field elements into one.
    pub fn hash(&self, inputs: [Fe; 4]) -> (r: Fe)
        requires
            inputs[0].wf(),
            inputs[1].wf(),
            inputs[2].wf(),
            inputs[3].wf(),
        ensures
            r.wf(),
            r.value() == poseidon_of(
                inputs[0].value(),
                inputs[1].value(),
                inputs[2].value(),
                inputs[3].value(),
            ),
    {
        poseidon_hash(inputs[0], inputs[1], inputs[2], inputs[3])
    }
}

/// Equal inputs give equal outputs: two results of the compression of one
/// 4-tuple are the same element.
pub proof fn lemma_hash_deterministic(a: Fe, b: Fe, c: Fe, d: Fe, r1: Fe, r2: Fe)
    requires
        r1.wf(),
        r2.wf(),
        r1.value() == poseidon_of(a.value(), b.value(), c.value(), d.value()),
        r2.value() == poseidon_of(a.value(), b.value(), c.value(), d.value()),
    ensures
        r1 == r2,
{
    lemma_value_injective(r1, r2);
}

} // verus!
