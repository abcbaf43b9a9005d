//! The Merkle-sum-tree chip: one authentication path from a leaf to the root,
//! two rows per level, followed by the check that the root sum lies strictly
//! below the total assets.
//!
//! Public inputs sit in fixed rows: leaf hash (0), leaf balance (1), root hash
//! (2) and total assets (3).
use crate::field::{lemma_value_injective, fmod, Fe};
use crate::gates::{
    bool_gate, bool_gate_spec, lemma_bool_gate_values, lemma_sum_gate_exact, lemma_swap_gate,
    lt_gate, lt_gate_spec, placed, sum_gate, sum_gate_spec, swap_gate, swap_gate_spec, Row,
};
use crate::less_than::{lemma_lt_sound, lt_assign, lt_check, lt_gadget_spec, lt_range, LtWitness};
use crate::poseidon::{poseidon_of, PoseidonChip, PoseidonConfig};
use vstd::prelude::*;

verus! {

/// The chip's layout: the hash chip's parameters and the public-input row
/// that holds the total assets.
#[derive(Clone, Copy, Debug, PartialEq, Eq, Structural)]
pub struct MerkleSumTreeConfig {
    pub poseidon_config: PoseidonConfig,
    pub total_assets_row: usize,
}

impl MerkleSumTreeConfig {
    pub open spec fn valid(self) -> bool {
        self.poseidon_config.valid() && self.total_assets_row == 3
    }
}

/// The prover's data for one level: the sibling node and the direction bit
/// (zero: the running node is the left child).
#[derive(Clone, Copy, Debug, PartialEq, Eq, Structural)]
pub struct LevelWitness {
    pub sibling_hash: Fe,
    pub sibling_balance: Fe,
    pub direction: Fe,
}

impl LevelWitness {
    pub open spec fn wf(self) -> bool {
        self.sibling_hash.wf() && self.sibling_balance.wf() && self.direction.wf()
    }
}

/// The two rows of one level, and the output cell of the hash region.
#[derive(Clone, Copy, Debug, PartialEq, Eq, Structural)]
pub struct LayerRegion {
    pub row0: Row,
    pub row1: Row,
    pub hash: Fe,
}

/// The row of the final comparison (`a`: root sum, `b`: total assets, `c`:
/// the expected flag) and the less-than gadget's witness.
#[derive(Clone, Copy, Debug, PartialEq, Eq, Structural)]
pub struct LessThanRegion {
    pub row: Row,
    pub witness: LtWitness,
}

/// The public inputs, in their fixed rows.
#[derive(Clone, Copy, Debug, PartialEq, Eq, Structural)]
pub struct PublicInputs {
    pub leaf_hash: Fe,
    pub leaf_balance: Fe,
    pub root_hash: Fe,
    pub total_assets: Fe,
}

impl PublicInputs {
    pub open spec fn wf(self) -> bool {
        self.leaf_hash.wf() && self.leaf_balance.wf() && self.root_hash.wf() && self.total_assets.wf()
    }

    pub open spec fn spec_at(self, row: int) -> Option<Fe> {
        if row == 0 {
            Some(self.leaf_hash)
        } else if row == 1 {
            Some(self.leaf_balance)
        } else if row == 2 {
            Some(self.root_hash)
        } else if row == 3 {
            Some(self.total_assets)
        } else {
            None
        }
    }

    /// The value at a row of the public-input column.
    pub fn at(&self, row: usize) -> (r: Option<Fe>)
        ensures
            r == self.spec_at(row as int),
    {
        if row == 0 {
            Some(self.leaf_hash)
        } else if row == 1 {
            Some(self.leaf_balance)
        } else if row == 2 {
            Some(self.root_hash)
        } else if row == 3 {
            Some(self.total_assets)
        } else {
            None
        }
    }
}

/// The whole trace of one path: the leaf cells, one region per level, and the
/// final comparison.
#[derive(Clone, Debug)]
pub struct PathTrace {
    pub leaf_hash: Fe,
    pub leaf_balance: Fe,
    pub layers: Vec<LayerRegion>,
    pub less_than: LessThanRegion,
}

pub open spec fn layer_wf(l: LayerRegion) -> bool {
    l.row0.wf() && l.row1.wf() && l.hash.wf()
}

/// Every cell of the trace is a canonical field element.
pub open spec fn trace_wf(t: PathTrace) -> bool {
    &&& t.leaf_hash.wf()
    &&& t.leaf_balance.wf()
    &&& forall|i: int| 0 <= i < t.layers.len() ==> layer_wf(#[trigger] t.layers@[i])
    &&& t.less_than.row.wf()
    &&& t.less_than.witness.lt.wf()
}

/// The hash cell that level `i` takes in: the leaf's, then the previous output.
pub open spec fn chained_hash(leaf_hash: Fe, layers: Seq<LayerRegion>, i: int) -> Fe {
    if i == 0 {
        leaf_hash
    } else {
        layers[i - 1].hash
    }
}

/// The balance cell that level `i` takes in: the leaf's, then the previous sum.
pub open spec fn chained_sum(leaf_balance: Fe, layers: Seq<LayerRegion>, i: int) -> Fe {
    if i == 0 {
        leaf_balance
    } else {
        layers[i - 1].row1.e
    }
}

pub open spec fn prev_hash(t: PathTrace, i: int) -> Fe {
    chained_hash(t.leaf_hash, t.layers@, i)
}

pub open spec fn prev_sum(t: PathTrace, i: int) -> Fe {
    chained_sum(t.leaf_balance, t.layers@, i)
}

/// The gates of one level hold, and its hash cell is the compression of row 1.
pub open spec fn layer_satisfied(l: LayerRegion) -> bool {
    &&& bool_gate_spec(l.row0.e.value())
    &&& swap_gate_spec(l.row0, l.row1)
    &&& sum_gate_spec(l.row1)
    &&& l.hash.value() == poseidon_of(l.row1.a.value(), l.row1.b.value(), l.row1.c.value(), l.row1.d.value())
}

/// Level `i` holds its gates and its copy constraints to the level before.
pub open spec fn layer_linked(t: PathTrace, i: int) -> bool {
    &&& layer_satisfied(t.layers@[i])
    &&& t.layers@[i].row0.a == prev_hash(t, i)
    &&& t.layers@[i].row0.b == prev_sum(t, i)
}

/// Every gate and every copy constraint of the trace holds against the
/// public inputs.
pub open spec fn trace_satisfied(t: PathTrace, p: PublicInputs) -> bool {
    let n = t.layers.len() as int;
    &&& t.leaf_hash == p.leaf_hash
    &&& t.leaf_balance == p.leaf_balance
    &&& forall|i: int| 0 <= i < n ==> #[trigger] layer_linked(t, i)
    &&& prev_hash(t, n) == p.root_hash
    &&& t.less_than.row.a == prev_sum(t, n)
    &&& t.less_than.row.b == p.total_assets
    &&& t.less_than.row.c.value() == 1
    &&& lt_gate_spec(t.less_than.row, t.less_than.witness.lt.value())
    &&& lt_gadget_spec(
        t.less_than.row.a.value(),
        t.less_than.row.b.value(),
        t.less_than.witness.lt.value(),
        t.less_than.witness.diff as int,
    )
}

/// The node above `(h, b)` for one level: its hash and its balance sum.
pub open spec fn level_step(h: int, b: int, w: LevelWitness) -> (int, int) {
    let sh = w.sibling_hash.value();
    let sb = w.sibling_balance.value();
    if w.direction.value() == 0 {
        (poseidon_of(h, b, sh, sb), fmod(b + sb))
    } else {
        (poseidon_of(sh, sb, h, b), fmod(sb + b))
    }
}

/// The root `(hash, sum)` that a path reduces a leaf to.
pub open spec fn path_root(h: int, b: int, path: Seq<LevelWitness>) -> (int, int)
    decreases path.len(),
{
    if path.len() == 0 {
        (h, b)
    } else {
        let prev = path_root(h, b, path.drop_last());
        level_step(prev.0, prev.1, path.last())
    }
}

/// The region that the witness generator lays out for one level.
pub open spec fn layer_built(l: LayerRegion, prev_hash: Fe, prev_balance: Fe, w: LevelWitness) -> bool {
    &&& l.row0 == (Row {
        a: prev_hash,
        b: prev_balance,
        c: w.sibling_hash,
        d: w.sibling_balance,
        e: w.direction,
    })
    &&& placed(l.row0, l.row1)
    &&& l.row1.e.value() == fmod(l.row1.b.value() + l.row1.d.value())
    &&& l.hash.value() == poseidon_of(l.row1.a.value(), l.row1.b.value(), l.row1.c.value(), l.row1.d.value())
    &&& layer_wf(l)
}

/// The region that the witness generator lays out for the final comparison.
pub open spec fn less_than_built(r: LessThanRegion, sum: Fe, total_assets: Fe) -> bool {
    &&& r.row.a == sum
    &&& r.row.b == total_assets
    &&& r.row.c.value() == 1
    &&& r.row.d.value() == 0
    &&& r.row.e.value() == 0
    &&& r.row.wf()
    &&& r.witness.lt.wf()
    &&& r.witness.lt.value() == (if sum.value() < total_assets.value() { 1int } else { 0int })
    &&& r.witness.diff == fmod(sum.value() - total_assets.value() + r.witness.lt.value() * lt_range())
        % lt_range()
    &&& sum.value() < lt_range() && total_assets.value() < lt_range() ==> lt_gadget_spec(
        sum.value(),
        total_assets.value(),
        r.witness.lt.value(),
        r.witness.diff as int,
    )
}

/// The trace that the witness generator lays out for a leaf and a path.
pub open spec fn trace_built(
    t: PathTrace,
    leaf_hash: Fe,
    leaf_balance: Fe,
    path: Seq<LevelWitness>,
    total_assets: Fe,
) -> bool {
    let n = path.len() as int;
    &&& t.leaf_hash == leaf_hash
    &&& t.leaf_balance == leaf_balance
    &&& t.layers.len() == n
    &&& forall|i: int|
        0 <= i < n ==> #[trigger] layer_built(t.layers@[i], prev_hash(t, i), prev_sum(t, i), path[i])
    &&& less_than_built(t.less_than, prev_sum(t, n), total_assets)
}

/// A layer laid out by the witness generator steps the running node as the
/// path does.
proof fn lemma_layer_step(l: LayerRegion, h: Fe, b: Fe, w: LevelWitness)
    requires
        layer_built(l, h, b, w),
    ensures
        (l.hash.value(), l.row1.e.value()) == level_step(h.value(), b.value(), w),
{
}

/// A layer laid out by the witness generator with a boolean direction bit
/// satisfies its gates.
proof fn lemma_layer_satisfied(l: LayerRegion, h: Fe, b: Fe, w: LevelWitness)
    requires
        layer_built(l, h, b, w),
        w.direction.value() == 0 || w.direction.value() == 1,
    ensures
        layer_satisfied(l),
{
    lemma_bool_gate_values();
    lemma_swap_gate(l.row0, l.row1);
    lemma_sum_gate_exact(l.row1);
}

/// Configuration and witness generation of the Merkle-sum-tree circuit.
#[derive(Clone, Copy, Debug)]
pub struct MerkleSumTreeChip {
    config: MerkleSumTreeConfig,
}

impl MerkleSumTreeChip {
    pub closed spec fn spec_config(self) -> MerkleSumTreeConfig {
        self.config
    }

    pub fn construct(config: MerkleSumTreeConfig) -> (r: Self)
        requires
            config.valid(),
        ensures
            r.spec_config() == config,
    {
        MerkleSumTreeChip { config }
    }

    /// The chip's fixed layout.
    pub fn configure() -> (r: MerkleSumTreeConfig)
        ensures
            r.valid(),
    {
        let poseidon_config = PoseidonConfig { width: 5, rate: 4, arity: 4 };
        MerkleSumTreeConfig { poseidon_config, total_assets_row: 3 }
    }

    /// The cells of the leaf: hash in column `a`, balance in column `b`.
    pub fn assing_leaf_hash_and_balance(&self, leaf_hash: Fe, leaf_balance: Fe) -> (r: (Fe, Fe))
        ensures
            r.0 == leaf_hash,
            r.1 == leaf_balance,
    {
        (leaf_hash, leaf_balance)
    }

    /// Lays out one level: row 0 takes the running node, the sibling and the
    /// direction bit; row 1 the ordered children and their balance sum; the
    /// hash cell the compression of row 1.
    pub fn merkle_prove_layer(
        &self,
        prev_hash: &Fe,
        prev_balance: &Fe,
        element_hash: Fe,
        element_balance: Fe,
        index: Fe,
    ) -> (r: LayerRegion)
        requires
            self.spec_config().valid(),
            prev_hash.wf(),
            prev_balance.wf(),
            element_hash.wf(),
            element_balance.wf(),
            index.wf(),
        ensures
            layer_built(
                r,
                *prev_hash,
                *prev_balance,
                LevelWitness {
                    sibling_hash: element_hash,
                    sibling_balance: element_balance,
                    direction: index,
                },
            ),
    {
        let row0 = Row { a: *prev_hash, b: *prev_balance, c: element_hash, d: element_balance, e: index };
        let (l1, l2, r1, r2) = if index.is_zero() {
            (*prev_hash, *prev_balance, element_hash, element_balance)
        } else {
            (element_hash, element_balance, *prev_hash, *prev_balance)
        };
        let sum = crate::field::fe_add(l2, r2);
        let row1 = Row { a: l1, b: l2, c: r1, d: r2, e: sum };
        let poseidon = PoseidonChip::construct(self.config.poseidon_config);
        let hash = poseidon.hash([l1, l2, r1, r2]);
        LayerRegion { row0, row1, hash }
    }

    pub fn config(&self) -> (r: MerkleSumTreeConfig)
        ensures
            r == self.spec_config(),
    {
        self.config
    }

    /// The comparison region for a root sum and a total-assets value: both
    /// operands, the expected flag `1`, and the less-than witness.
    pub fn less_than_region(&self, sum: &Fe, total_assets: Fe) -> (r: LessThanRegion)
        requires
            sum.wf(),
            total_assets.wf(),
        ensures
            less_than_built(r, *sum, total_assets),
    {
        let row = Row { a: *sum, b: total_assets, c: Fe::one(), d: Fe::zero(), e: Fe::zero() };
        let witness = lt_assign(*sum, total_assets);
        LessThanRegion { row, witness }
    }

    /// Lays out the final comparison: the root sum against the total assets
    /// read from the public inputs, with the expected flag `1`.
    pub fn enforce_less_than(&self, prev_computed_sum: &Fe, public: &PublicInputs) -> (r: LessThanRegion)
        requires
            self.spec_config().valid(),
            prev_computed_sum.wf(),
            public.wf(),
        ensures
            less_than_built(r, *prev_computed_sum, public.total_assets),
    {
        let total_assets = match public.at(self.config.total_assets_row) {
            Some(v) => v,
            None => Fe::zero(),
        };
        self.less_than_region(prev_computed_sum, total_assets)
    }

    /// Evaluates the copy constraint between a cell and a public-input row.
    pub fn expose_public(&self, cell: &Fe, row: usize, public: &PublicInputs) -> (r: bool)
        ensures
            r == (public.spec_at(row as int) == Some(*cell)),
    {
        match public.at(row) {
            Some(v) => v == *cell,
            None => false,
        }
    }
}

impl MerkleSumTreeChip {
    /// Lays out the whole trace: the leaf, one region per level chained
    /// through its output cells, then the comparison of the root sum against
    /// the total assets.
    pub fn prove_path(
        &self,
        leaf_hash: Fe,
        leaf_balance: Fe,
        path: &Vec<LevelWitness>,
        public: &PublicInputs,
    ) -> (t: PathTrace)
        requires
            self.spec_config().valid(),
            leaf_hash.wf(),
            leaf_balance.wf(),
            forall|i: int| 0 <= i < path.len() ==> (#[trigger] path@[i]).wf(),
            public.wf(),
        ensures
            trace_wf(t),
            trace_built(t, leaf_hash, leaf_balance, path@, public.total_assets),
            (prev_hash(t, path.len() as int).value(), prev_sum(t, path.len() as int).value())
                == path_root(leaf_hash.value(), leaf_balance.value(), path@),
    {
        let (mut h, mut b) = self.assing_leaf_hash_and_balance(leaf_hash, leaf_balance);
        let mut layers: Vec<LayerRegion> = Vec::new();
        let mut i: usize = 0;
        while i < path.len()
            invariant
                self.spec_config().valid(),
                forall|k: int| 0 <= k < path.len() ==> (#[trigger] path@[k]).wf(),
                i <= path.len(),
                layers.len() == i,
                h.wf(),
                b.wf(),
                h == chained_hash(leaf_hash, layers@, i as int),
                b == chained_sum(leaf_balance, layers@, i as int),
                forall|j: int| 0 <= j < i ==> layer_wf(#[trigger] layers@[j]),
                forall|j: int|
                    0 <= j < i ==> #[trigger] layer_built(
                        layers@[j],
                        chained_hash(leaf_hash, layers@, j),
                        chained_sum(leaf_balance, layers@, j),
                        path@[j],
                    ),
                (h.value(), b.value()) == path_root(
                    leaf_hash.value(),
                    leaf_balance.value(),
                    path@.subrange(0, i as int),
                ),
            decreases path.len() - i,
        {
            let w = path[i];
            let l = self.merkle_prove_layer(&h, &b, w.sibling_hash, w.sibling_balance, w.direction);
            proof {
                lemma_layer_step(l, h, b, w);
                assert(path@.subrange(0, i + 1).drop_last() =~= path@.subrange(0, i as int));
            }
            let ghost old_layers = layers@;
            layers.push(l);
            proof {
                assert forall|j: int| 0 <= j <= i implies chained_hash(leaf_hash, layers@, j)
                    == chained_hash(leaf_hash, old_layers, j) && chained_sum(leaf_balance, layers@, j)
                    == chained_sum(leaf_balance, old_layers, j) by {
                    if j > 0 {
                        assert(layers@[j - 1] == old_layers[j - 1]);
                    }
                }
                assert forall|j: int| 0 <= j < i + 1 implies layer_wf(#[trigger] layers@[j]) by {
                    if j < i {
                        assert(layers@[j] == old_layers[j]);
                    }
                }
                assert forall|j: int| 0 <= j < i + 1 implies #[trigger] layer_built(
                    layers@[j],
                    chained_hash(leaf_hash, layers@, j),
                    chained_sum(leaf_balance, layers@, j),
                    path@[j],
                ) by {
                    if j < i {
                        assert(layers@[j] == old_layers[j]);
                        assert(layer_built(
                            old_layers[j],
                            chained_hash(leaf_hash, old_layers, j),
                            chained_sum(leaf_balance, old_layers, j),
                            path@[j],
                        ));
                    } else {
                        assert(layers@[j] == l);
                    }
                }
            }
            h = l.hash;
            b = l.row1.e;
            i = i + 1;
        }
        proof {
            assert(path@.subrange(0, path.len() as int) =~= path@);
        }
        let lt_region = self.enforce_less_than(&b, public);
        PathTrace { leaf_hash, leaf_balance, layers, less_than: lt_region }
    }

    /// Evaluates every gate and every copy constraint of a trace against the
    /// public inputs.
    pub fn verify_path(&self, t: &PathTrace, public: &PublicInputs) -> (r: bool)
        requires
            self.spec_config().valid(),
            trace_wf(*t),
            public.wf(),
        ensures
            r == trace_satisfied(*t, *public),
    {
        if !(t.leaf_hash == public.leaf_hash && t.leaf_balance == public.leaf_balance) {
            return false;
        }
        let poseidon = PoseidonChip::construct(self.config.poseidon_config);
        let mut h = t.leaf_hash;
        let mut b = t.leaf_balance;
        let mut i: usize = 0;
        while i < t.layers.len()
            invariant
                trace_wf(*t),
                i <= t.layers.len(),
                h == prev_hash(*t, i as int),
                b == prev_sum(*t, i as int),
                forall|j: int| 0 <= j < i ==> #[trigger] layer_linked(*t, j),
            decreases t.layers.len() - i,
        {
            let l = t.layers[i];
            assert(layer_wf(t.layers@[i as int]));
            let expected = poseidon.hash([l.row1.a, l.row1.b, l.row1.c, l.row1.d]);
            proof {
                lemma_value_injective(l.hash, expected);
            }
            let ok = bool_gate(l.row0.e) && swap_gate(&l.row0, &l.row1) && sum_gate(&l.row1)
                && l.hash == expected && l.row0.a == h && l.row0.b == b;
            if !ok {
                assert(!layer_linked(*t, i as int));
                return false;
            }
            h = l.hash;
            b = l.row1.e;
            i = i + 1;
        }
        let r = &t.less_than;
        h == public.root_hash && r.row.a == b && r.row.b == public.total_assets && r.row.c.same(&Fe::one()) && lt_gate(&r.row, r.witness.lt) && lt_check(
            r.row.a,
            r.row.b,
            &r.witness,
        )
    }
}

/// A valid path yields a satisfiable trace: when every direction bit is
/// boolean, the public root is the one that the path reduces the leaf to, and
/// the root sum lies below total assets that fit in eight bytes, the trace that
/// the witness generator lays out satisfies every gate and copy constraint.
pub proof fn lemma_valid_path_satisfiable(
    t: PathTrace,
    leaf_hash: Fe,
    leaf_balance: Fe,
    path: Seq<LevelWitness>,
    public: PublicInputs,
)
    requires
        trace_wf(t),
        public.wf(),
        trace_built(t, leaf_hash, leaf_balance, path, public.total_assets),
        forall|i: int|
            0 <= i < path.len() ==> (#[trigger] path[i]).direction.value() == 0 || path[i].direction.value()
                == 1,
        public.leaf_hash == leaf_hash,
        public.leaf_balance == leaf_balance,
        public.root_hash.value() == path_root(leaf_hash.value(), leaf_balance.value(), path).0,
        path_root(leaf_hash.value(), leaf_balance.value(), path).1 < public.total_assets.value(),
        public.total_assets.value() < lt_range(),
    ensures
        trace_satisfied(t, public),
{
    let n = path.len() as int;
    lemma_trace_reduces(t, leaf_hash, leaf_balance, path, n);
    assert(path.subrange(0, n) =~= path);
    lemma_value_injective(prev_hash(t, n), public.root_hash);
    assert forall|i: int| 0 <= i < n implies #[trigger] layer_linked(t, i) by {
        assert(layer_built(t.layers@[i], prev_hash(t, i), prev_sum(t, i), path[i]));
        lemma_layer_satisfied(t.layers@[i], prev_hash(t, i), prev_sum(t, i), path[i]);
    }
    let s = prev_sum(t, n);
    let w = t.less_than.witness;
    assert(w.lt.value() == 1);
    assert(lt_gate_spec(t.less_than.row, w.lt.value())) by {
        crate::gates::lemma_small_vanishes(0);
    }
    assert(s.value() < lt_range());
}

/// The running node of a laid-out trace after `k` levels is the one that the
/// first `k` levels of the path reduce the leaf to.
proof fn lemma_trace_reduces(t: PathTrace, leaf_hash: Fe, leaf_balance: Fe, path: Seq<LevelWitness>, k: int)
    requires
        trace_built(t, leaf_hash, leaf_balance, path, t.less_than.row.b),
        0 <= k <= path.len(),
    ensures
        (prev_hash(t, k).value(), prev_sum(t, k).value()) == path_root(
            leaf_hash.value(),
            leaf_balance.value(),
            path.subrange(0, k),
        ),
    decreases k,
{
    if k > 0 {
        lemma_trace_reduces(t, leaf_hash, leaf_balance, path, k - 1);
        assert(path.subrange(0, k).drop_last() =~= path.subrange(0, k - 1));
        assert(layer_built(t.layers@[k - 1], prev_hash(t, k - 1), prev_sum(t, k - 1), path[k - 1]));
        lemma_layer_step(t.layers@[k - 1], prev_hash(t, k - 1), prev_sum(t, k - 1), path[k - 1]);
    }
}

/// A satisfied trace pins the public root: if the trace laid out for a path
/// (honest or altered) satisfies the circuit, the public root hash is the one
/// that this path reduces the leaf to, and its root sum lies below the total
/// assets, and every direction bit passes the bool gate (so none is `2`). An
/// altered sibling hash, sibling balance or direction bit is therefore
/// rejected whenever it changes the reduced root or lifts the sum.
pub proof fn lemma_satisfied_trace_fixes_root(
    t: PathTrace,
    leaf_hash: Fe,
    leaf_balance: Fe,
    path: Seq<LevelWitness>,
    public: PublicInputs,
)
    requires
        trace_wf(t),
        public.wf(),
        trace_built(t, leaf_hash, leaf_balance, path, public.total_assets),
        trace_satisfied(t, public),
        public.total_assets.value() < lt_range(),
        path_root(leaf_hash.value(), leaf_balance.value(), path).1 < lt_range(),
    ensures
        public.root_hash.value() == path_root(leaf_hash.value(), leaf_balance.value(), path).0,
        path_root(leaf_hash.value(), leaf_balance.value(), path).1 < public.total_assets.value(),
        forall|i: int| 0 <= i < path.len() ==> bool_gate_spec((#[trigger] path[i]).direction.value()),
{
    let n = path.len() as int;
    lemma_trace_reduces(t, leaf_hash, leaf_balance, path, n);
    assert(path.subrange(0, n) =~= path);
    assert forall|i: int| 0 <= i < n implies bool_gate_spec((#[trigger] path[i]).direction.value()) by {
        assert(layer_linked(t, i));
        assert(layer_built(t.layers@[i], prev_hash(t, i), prev_sum(t, i), path[i]));
    }
    let r = t.less_than.row;
    let w = t.less_than.witness;
    lemma_lt_sound(r.a.value(), r.b.value(), w.lt.value(), w.diff as int);
}

/// The level witnesses that a trace holds in its row-0 cells.
pub open spec fn trace_witnesses(t: PathTrace) -> Seq<LevelWitness> {
    Seq::new(
        t.layers.len() as nat,
        |i: int|
            LevelWitness {
                sibling_hash: t.layers@[i].row0.c,
                sibling_balance: t.layers@[i].row0.d,
                direction: t.layers@[i].row0.e,
            },
    )
}

/// The running node of a satisfied trace after `k` levels is the one that the
/// first `k` row-0 witnesses reduce the public leaf to.
proof fn lemma_satisfied_reduces(t: PathTrace, p: PublicInputs, k: int)
    requires
        trace_wf(t),
        trace_satisfied(t, p),
        forall|i: int|
            0 <= i < t.layers.len() ==> (#[trigger] t.layers@[i]).row0.e.value() == 0
                || t.layers@[i].row0.e.value() == 1,
        0 <= k <= t.layers.len(),
    ensures
        (prev_hash(t, k).value(), prev_sum(t, k).value()) == path_root(
            p.leaf_hash.value(),
            p.leaf_balance.value(),
            trace_witnesses(t).subrange(0, k),
        ),
    decreases k,
{
    if k > 0 {
        lemma_satisfied_reduces(t, p, k - 1);
        let ws = trace_witnesses(t);
        assert(ws.subrange(0, k).drop_last() =~= ws.subrange(0, k - 1));
        let l = t.layers@[k - 1];
        assert(layer_linked(t, k - 1));
        assert(layer_wf(l));
        lemma_swap_gate(l.row0, l.row1);
        lemma_sum_gate_exact(l.row1);
        assert(layer_built(l, prev_hash(t, k - 1), prev_sum(t, k - 1), ws[k - 1]));
        lemma_layer_step(l, prev_hash(t, k - 1), prev_sum(t, k - 1), ws[k - 1]);
    }
}

/// Soundness of the path: in any trace that satisfies the circuit, with
/// boolean direction bits, the public root hash is the one that the witnesses
/// held in the row-0 cells reduce the public leaf to; and when that root sum
/// and the total assets fit in eight bytes, the sum lies below the total
/// assets. An altered sibling hash, sibling balance or direction bit is
/// therefore accepted only where the altered path reduces to the same root
/// hash, that is, through a collision of the compression function.
pub proof fn lemma_satisfied_trace_sound(t: PathTrace, p: PublicInputs)
    requires
        trace_wf(t),
        p.wf(),
        trace_satisfied(t, p),
        forall|i: int|
            0 <= i < t.layers.len() ==> (#[trigger] t.layers@[i]).row0.e.value() == 0
                || t.layers@[i].row0.e.value() == 1,
    ensures
        p.root_hash.value() == path_root(p.leaf_hash.value(), p.leaf_balance.value(), trace_witnesses(t)).0,
        path_root(p.leaf_hash.value(), p.leaf_balance.value(), trace_witnesses(t)).1 < lt_range()
            && p.total_assets.value() < lt_range() ==> path_root(
            p.leaf_hash.value(),
            p.leaf_balance.value(),
            trace_witnesses(t),
        ).1 < p.total_assets.value(),
{
    let n = t.layers.len() as int;
    lemma_satisfied_reduces(t, p, n);
    assert(trace_witnesses(t).subrange(0, n) =~= trace_witnesses(t));
    let r = t.less_than.row;
    let w = t.less_than.witness;
    if r.a.value() < lt_range() && r.b.value() < lt_range() {
        lemma_lt_sound(r.a.value(), r.b.value(), w.lt.value(), w.diff as int);
    }
}

} // verus!
