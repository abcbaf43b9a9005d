use summa_solvency::field::Fe;
use summa_solvency::merkle_sum_tree::{LevelWitness, MerkleSumTreeChip, PublicInputs};
use summa_solvency::poseidon::{PoseidonChip, PoseidonConfig};

fn fe(v: u64) -> Fe {
    Fe::from_u64(v)
}

fn chip() -> MerkleSumTreeChip {
    MerkleSumTreeChip::construct(MerkleSumTreeChip::configure())
}

fn hasher() -> PoseidonChip {
    PoseidonChip::construct(PoseidonChip::configure(5, 4, 4))
}

fn level(hash: u64, balance: u64, bit: u64) -> LevelWitness {
    LevelWitness { sibling_hash: fe(hash), sibling_balance: fe(balance), direction: fe(bit) }
}

/// Reduces a leaf along a path outside the circuit.
fn root_of(leaf_hash: Fe, leaf_balance: Fe, path: &[LevelWitness]) -> (Fe, u64) {
    let h = hasher();
    let mut hash = leaf_hash;
    let mut sum = leaf_balance.limbs()[0];
    for w in path {
        let sb = w.sibling_balance.limbs()[0];
        hash = if w.direction.is_zero() {
            h.hash([hash, fe(sum), w.sibling_hash, w.sibling_balance])
        } else {
            h.hash([w.sibling_hash, w.sibling_balance, hash, fe(sum)])
        };
        sum += sb;
    }
    (hash, sum)
}

fn public(leaf_hash: Fe, leaf_balance: Fe, root_hash: Fe, total: u64) -> PublicInputs {
    PublicInputs { leaf_hash, leaf_balance, root_hash, total_assets: fe(total) }
}

#[test]
fn poseidon_configure_holds_the_parameters() {
    assert_eq!(PoseidonChip::configure(5, 4, 4), PoseidonConfig { width: 5, rate: 4, arity: 4 });
    let c = hasher().config();
    assert_eq!(c, PoseidonConfig { width: 5, rate: 4, arity: 4 });
}

#[test]
fn hash_is_deterministic_and_input_sensitive() {
    let h = hasher();
    let base = [fe(1), fe(2), fe(3), fe(4)];
    let out = h.hash(base);
    assert_eq!(out, h.hash(base));
    assert!(!out.same(&base[0]));
    for i in 0..4 {
        let mut changed = base;
        changed[i] = fe(100 + i as u64);
        assert_ne!(out, h.hash(changed));
    }
}

#[test]
fn prove_layer_orders_children_and_sums() {
    let c = chip();
    let l0 = c.merkle_prove_layer(&fe(11), &fe(10), fe(22), fe(20), fe(0));
    assert_eq!((l0.row1.a, l0.row1.b, l0.row1.c, l0.row1.d), (fe(11), fe(10), fe(22), fe(20)));
    assert_eq!(l0.row1.e, fe(30));
    assert_eq!(l0.hash, hasher().hash([fe(11), fe(10), fe(22), fe(20)]));
    let l1 = c.merkle_prove_layer(&fe(11), &fe(10), fe(22), fe(20), fe(1));
    assert_eq!((l1.row1.a, l1.row1.b, l1.row1.c, l1.row1.d), (fe(22), fe(20), fe(11), fe(10)));
    assert_eq!(l1.row1.e, fe(30));
    assert_eq!(l1.hash, hasher().hash([fe(22), fe(20), fe(11), fe(10)]));
}

#[test]
fn leaf_cells_and_public_rows() {
    let c = chip();
    assert_eq!(c.assing_leaf_hash_and_balance(fe(5), fe(6)), (fe(5), fe(6)));
    let p = public(fe(5), fe(6), fe(7), 8);
    assert!(c.expose_public(&fe(5), 0, &p));
    assert!(c.expose_public(&fe(6), 1, &p));
    assert!(c.expose_public(&fe(7), 2, &p));
    assert!(c.expose_public(&fe(8), 3, &p));
    assert!(!c.expose_public(&fe(8), 2, &p));
    assert!(!c.expose_public(&fe(8), 4, &p));
    assert_eq!(c.config().total_assets_row, 3);
    let direct = c.less_than_region(&fe(30), fe(40));
    assert_eq!((direct.row.a, direct.row.b, direct.row.c), (fe(30), fe(40), fe(1)));
    assert!(direct.witness.lt.same(&fe(1)));
    assert_eq!(direct.witness.diff, u64::MAX - 9);
    let r = c.enforce_less_than(&fe(30), &p);
    assert_eq!((r.row.a, r.row.b, r.row.c), (fe(30), fe(8), fe(1)));
    assert!(r.witness.lt.is_zero());
}

#[test]
fn one_level_tree_end_to_end() {
    let c = chip();
    let h0 = fe(0x1234);
    let h1 = fe(0x5678);
    let path = vec![level(0x5678, 20, 0)];
    let root = hasher().hash([h0, fe(10), h1, fe(20)]);
    let t = c.prove_path(h0, fe(10), &path, &public(h0, fe(10), root, 100));
    assert_eq!(t.layers[0].row1.e, fe(30));
    assert_eq!(t.layers[0].hash, root);
    assert!(c.verify_path(&t, &public(h0, fe(10), root, 100)));
    let t25 = c.prove_path(h0, fe(10), &path, &public(h0, fe(10), root, 25));
    assert!(!c.verify_path(&t25, &public(h0, fe(10), root, 25)));
}

#[test]
fn root_sum_at_the_threshold_boundary() {
    let c = chip();
    let path = vec![level(0x5678, 20, 0)];
    let root = hasher().hash([fe(9), fe(10), fe(0x5678), fe(20)]);
    for (total, ok) in [(31u64, true), (30, false), (29, false)] {
        let p = public(fe(9), fe(10), root, total);
        let t = c.prove_path(fe(9), fe(10), &path, &p);
        assert_eq!(c.verify_path(&t, &p), ok);
    }
}

fn deep_path() -> Vec<LevelWitness> {
    vec![level(0xaaaa, 5, 1), level(0xbbbb, 7, 0), level(0xcccc, 11, 1)]
}

#[test]
fn valid_deep_path_is_satisfiable() {
    let c = chip();
    let path = deep_path();
    let (root, sum) = root_of(fe(0x42), fe(3), &path);
    assert_eq!(sum, 26);
    let p = public(fe(0x42), fe(3), root, 1000);
    let t = c.prove_path(fe(0x42), fe(3), &path, &p);
    assert_eq!(t.layers.len(), 3);
    assert_eq!(t.layers[2].hash, root);
    assert!(c.verify_path(&t, &p));
    assert!(!c.verify_path(&t, &public(fe(0x43), fe(3), root, 1000)));
    assert!(!c.verify_path(&t, &public(fe(0x42), fe(4), root, 1000)));
}

#[test]
fn mutated_witness_is_rejected_at_each_level() {
    let c = chip();
    let path = deep_path();
    let (root, _) = root_of(fe(0x42), fe(3), &path);
    let p = public(fe(0x42), fe(3), root, 1000);
    for i in 0..path.len() {
        let mut hash_changed = path.clone();
        hash_changed[i].sibling_hash = fe(0xdddd);
        let mut balance_changed = path.clone();
        balance_changed[i].sibling_balance = fe(1);
        let mut bit_flipped = path.clone();
        bit_flipped[i].direction = if path[i].direction.is_zero() { fe(1) } else { fe(0) };
        let mut bit_two = path.clone();
        bit_two[i].direction = fe(2);
        for bad in [hash_changed, balance_changed, bit_flipped, bit_two] {
            let t = c.prove_path(fe(0x42), fe(3), &bad, &p);
            assert!(!c.verify_path(&t, &p));
        }
    }
}

#[test]
fn tampered_trace_is_rejected() {
    let c = chip();
    let path = deep_path();
    let (root, _) = root_of(fe(0x42), fe(3), &path);
    let p = public(fe(0x42), fe(3), root, 1000);
    let t = c.prove_path(fe(0x42), fe(3), &path, &p);
    let mut bad_sum = t.clone();
    bad_sum.layers[1].row1.e = fe(99);
    assert!(!c.verify_path(&bad_sum, &p));
    let mut bad_bit = t.clone();
    bad_bit.layers[0].row0.e = fe(2);
    assert!(!c.verify_path(&bad_bit, &p));
    // a changed sibling in row 0 with the old row 1 kept
    let mut bad_sibling = t.clone();
    bad_sibling.layers[1].row0.c = fe(0xdddd);
    assert!(!c.verify_path(&bad_sibling, &p));
    let mut bad_balance = t.clone();
    bad_balance.layers[1].row0.d = fe(8);
    assert!(!c.verify_path(&bad_balance, &p));
    let mut bad_order = t.clone();
    let r1 = bad_order.layers[0].row1;
    bad_order.layers[0].row1.a = r1.c;
    bad_order.layers[0].row1.c = r1.a;
    assert!(!c.verify_path(&bad_order, &p));
    let mut bad_flag = t.clone();
    bad_flag.less_than.row.c = fe(0);
    assert!(!c.verify_path(&bad_flag, &p));
}
