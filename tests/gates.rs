use summa_solvency::field::Fe;
use summa_solvency::gates::{bool_gate, lt_gate, sum_gate, swap_gate, Row};
use summa_solvency::less_than::{lt_assign, lt_check, LtWitness};

fn fe(v: u64) -> Fe {
    Fe::from_u64(v)
}

fn modulus_minus(k: u64) -> Fe {
    Fe::from_limbs([0x43e1f593f0000001 - k, 0x2833e84879b97091, 0xb85045b68181585d, 0x30644e72e131a029])
        .unwrap()
}

fn row(a: u64, b: u64, c: u64, d: u64, e: u64) -> Row {
    Row { a: fe(a), b: fe(b), c: fe(c), d: fe(d), e: fe(e) }
}

#[test]
fn field_limbs_are_canonical() {
    assert!(Fe::from_limbs([0x43e1f593f0000001, 0x2833e84879b97091, 0xb85045b68181585d, 0x30644e72e131a029])
        .is_none());
    assert!(Fe::from_limbs([u64::MAX; 4]).is_none());
    let top = modulus_minus(1);
    assert_eq!(top.limbs()[0], 0x43e1f593f0000000);
    assert!(fe(3).less_than(&top));
    assert!(!top.less_than(&fe(3)));
    assert!(fe(7).same(&fe(7)));
    assert!(!fe(7).same(&fe(8)));
    assert!(Fe::zero().is_zero());
}

#[test]
fn bool_gate_accepts_bits_and_rejects_two() {
    assert!(bool_gate(fe(0)));
    assert!(bool_gate(fe(1)));
    assert!(!bool_gate(fe(2)));
    assert!(!bool_gate(modulus_minus(1)));
}

#[test]
fn swap_gate_identity_for_zero_bit() {
    let cur = row(11, 10, 22, 20, 0);
    assert!(swap_gate(&cur, &row(11, 10, 22, 20, 30)));
    assert!(!swap_gate(&row(1, 2, 3, 4, 0), &row(3, 4, 1, 2, 0)));
    assert!(!swap_gate(&row(5, 6, 7, 8, 0), &row(9, 9, 9, 9, 0)));
    assert!(!swap_gate(&cur, &row(11, 10, 22, 21, 30)));
}

#[test]
fn swap_gate_swapped_for_one_bit() {
    let cur = row(11, 10, 22, 20, 1);
    assert!(swap_gate(&cur, &row(22, 20, 11, 10, 30)));
    assert!(!swap_gate(&cur, &row(11, 10, 22, 20, 30)));
    assert!(!swap_gate(&cur, &row(22, 20, 11, 11, 30)));
}

#[test]
fn swap_gate_rejects_placements_that_only_keep_pair_sums() {
    assert!(!swap_gate(&row(1, 0, 2, 0, 1), &row(0, 0, 3, 0, 0)));
    assert!(!swap_gate(&row(1, 2, 3, 4, 1), &row(2, 2, 2, 4, 0)));
    assert!(swap_gate(&row(1, 2, 3, 4, 1), &row(3, 4, 1, 2, 0)));
}

#[test]
fn sum_gate_adds_modulo_the_field() {
    assert!(sum_gate(&row(0, 10, 0, 20, 30)));
    assert!(!sum_gate(&row(0, 10, 0, 20, 31)));
    let wrap = Row { a: fe(0), b: modulus_minus(1), c: fe(0), d: fe(2), e: fe(1) };
    assert!(sum_gate(&wrap));
    let no_wrap = Row { a: fe(0), b: modulus_minus(1), c: fe(0), d: fe(2), e: fe(0) };
    assert!(!sum_gate(&no_wrap));
}

#[test]
fn lt_gate_compares_flag_with_column_c() {
    assert!(lt_gate(&row(0, 0, 1, 0, 0), fe(1)));
    assert!(!lt_gate(&row(0, 0, 1, 0, 0), fe(0)));
}

#[test]
fn range_check_boundary() {
    let total = fe(100);
    let below = lt_assign(fe(99), total);
    assert!(below.lt.same(&fe(1)));
    assert_eq!(below.diff, u64::MAX);
    assert!(lt_check(fe(99), total, &below));
    let equal = lt_assign(fe(100), total);
    assert!(equal.lt.is_zero());
    assert_eq!(equal.diff, 0);
    assert!(lt_check(fe(100), total, &equal));
    let above = lt_assign(fe(101), total);
    assert!(above.lt.is_zero());
    assert_eq!(above.diff, 1);
    for diff in [0u64, 1, u64::MAX, u64::MAX - 1] {
        let forced = LtWitness { lt: fe(1), diff };
        assert!(!lt_check(fe(100), total, &forced));
        assert!(!lt_check(fe(101), total, &forced));
    }
    assert!(!lt_check(fe(99), total, &LtWitness { lt: fe(2), diff: 0 }));
}
