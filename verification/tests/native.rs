use constraint_consumer::consumer::ConstraintConsumer;
use constraint_consumer::field::{Fe, FIELD_ORDER};
use constraint_consumer::packed::Packed;

fn fe(v: u64) -> Fe {
    Fe::new(v)
}

fn packed1(v: u64) -> Packed {
    Packed::new(vec![fe(v)])
}

fn consumer1(alphas: &[u64], lb_first: u64, lb_last: u64) -> ConstraintConsumer {
    let alphas: Vec<Fe> = alphas.iter().map(|&a| fe(a)).collect();
    ConstraintConsumer::new(alphas, packed1(lb_first), packed1(lb_last))
}

/// Horner fold recomputed independently, on residues.
fn horner(alpha: u64, cs: &[u64]) -> u64 {
    let p = FIELD_ORDER as u128;
    let mut acc: u128 = 0;
    for &c in cs {
        acc = (acc * (alpha as u128) + (c as u128)) % p;
    }
    acc as u64
}

#[test]
fn scenario_single_challenge() {
    // Challenge 2, constraints 3, 5, 7 in order: ((0*2+3)*2+5)*2+7 = 29.
    let mut cc = consumer1(&[2], 0, 0);
    cc.one(packed1(3));
    cc.one(packed1(5));
    cc.one(packed1(7));
    let r = cc.accumulators();
    assert_eq!(r.len(), 1);
    assert_eq!(r[0].value, 29);
}

#[test]
fn distinct_challenges_distinct_residuals() {
    // The same constraints at challenges 2 and 3 give different residuals,
    // each the Horner evaluation at its own challenge.
    let mut cc = consumer1(&[2, 3], 0, 0);
    cc.one(packed1(3));
    cc.one(packed1(5));
    cc.one(packed1(7));
    let r = cc.accumulators();
    assert_eq!(r.len(), 2);
    assert_eq!(r[0].value, 29);
    assert_eq!(r[1].value, 49);
    assert_ne!(r[0].value, r[1].value);
}

#[test]
fn batch_equals_singles() {
    let mut by_batch = consumer1(&[2, 5], 0, 0);
    by_batch.many(vec![packed1(3), packed1(5), packed1(7)]);
    let mut by_ones = consumer1(&[2, 5], 0, 0);
    by_ones.one(packed1(3));
    by_ones.one(packed1(5));
    by_ones.one(packed1(7));
    let a = by_batch.accumulators();
    let b = by_ones.accumulators();
    assert_eq!(a.len(), b.len());
    for i in 0..a.len() {
        assert_eq!(a[i].value, b[i].value);
    }
}

#[test]
fn first_row_indicator_one_keeps_constraint() {
    // Indicator one: the boundary constraint contributes exactly c * 1.
    let mut cc = consumer1(&[2], 1, 0);
    cc.one_first_row(packed1(5));
    let r = cc.accumulators();
    assert_eq!(r[0].value, 5);
}

#[test]
fn last_row_indicator_zero_erases_constraint() {
    // Indicator zero: the boundary constraint contributes c * 0 = 0.
    let mut cc = consumer1(&[2], 1, 0);
    cc.one_first_row(packed1(5));
    cc.one_last_row(packed1(9));
    let r = cc.accumulators();
    // 5 * 2 + 9 * 0 = 10.
    assert_eq!(r[0].value, 10);
}

#[test]
fn first_row_indicator_zero_erases_constraint() {
    let mut cc = consumer1(&[7], 0, 1);
    cc.one_first_row(packed1(1234));
    let r = cc.accumulators();
    assert_eq!(r[0].value, 0);
}

#[test]
fn last_row_indicator_one_keeps_constraint() {
    let mut cc = consumer1(&[7], 0, 1);
    cc.one_last_row(packed1(1234));
    let r = cc.accumulators();
    assert_eq!(r[0].value, 1234);
}

#[test]
fn addition_wraps_at_field_order() {
    let r = fe(FIELD_ORDER - 1).add(fe(5));
    assert_eq!(r.value, 4);
}

#[test]
fn multiplication_wraps_at_field_order() {
    // 2^32 * 2^32 = 2^64 = FIELD_ORDER + 2^32 - 1, so the residue is 2^32 - 1.
    let two32: u64 = 1 << 32;
    let r = fe(two32).mul(fe(two32));
    assert_eq!(r.value, two32 - 1);
}

#[test]
fn horner_recomputation_agrees() {
    // Direct recomputation of the Horner fold for several challenges.
    let cs = [1u64, 2, 3, 4, 5, 1_000_000_007, FIELD_ORDER - 1];
    let alphas = [7u64, 11, FIELD_ORDER - 2];
    let mut cc = consumer1(&alphas, 0, 0);
    for &c in cs.iter() {
        cc.one(packed1(c));
    }
    let r = cc.accumulators();
    assert_eq!(r.len(), alphas.len());
    for i in 0..alphas.len() {
        assert_eq!(r[i].value, horner(alphas[i], &cs));
    }
}

#[test]
fn lanes_fold_independently() {
    // Width two: lane zero is the designated lane at finalize; its residual
    // must not depend on lane one's values.
    let lb = Packed::new(vec![fe(0), fe(0)]);
    let mut cc = ConstraintConsumer::new(vec![fe(2)], lb.duplicate(), lb.duplicate());
    cc.one(Packed::new(vec![fe(3), fe(100)]));
    cc.one(Packed::new(vec![fe(5), fe(200)]));
    cc.one(Packed::new(vec![fe(7), fe(300)]));
    let r = cc.accumulators();
    assert_eq!(r[0].value, 29);
}

#[test]
fn empty_challenge_set_yields_no_residuals() {
    // An empty challenge set is permitted and must not panic.
    let mut cc = consumer1(&[], 1, 1);
    cc.one(packed1(3));
    cc.many(vec![packed1(4), packed1(5)]);
    let r = cc.accumulators();
    assert_eq!(r.len(), 0);
}

#[test]
fn no_emission_leaves_zero_residuals() {
    let cc = consumer1(&[2, 3, 4], 1, 1);
    let r = cc.accumulators();
    assert_eq!(r.len(), 3);
    for f in r.iter() {
        assert_eq!(f.value, 0);
    }
}

#[test]
fn empty_batch_changes_nothing() {
    let mut cc = consumer1(&[2], 0, 0);
    cc.one(packed1(3));
    cc.many(vec![]);
    let r = cc.accumulators();
    assert_eq!(r[0].value, 3);
}

#[test]
fn boundary_filter_acts_per_lane() {
    // First-row indicator (1, 0): the filtered constraint keeps lane zero
    // and erases lane one.
    let lb_first = Packed::new(vec![fe(1), fe(0)]);
    let lb_last = Packed::new(vec![fe(0), fe(0)]);
    let mut cc = ConstraintConsumer::new(vec![fe(2)], lb_first, lb_last);
    cc.one_first_row(Packed::new(vec![fe(8), fe(9)]));
    assert_eq!(cc.constraint_accs[0].lanes[0].value, 8);
    assert_eq!(cc.constraint_accs[0].lanes[1].value, 0);
    let r = cc.accumulators();
    assert_eq!(r[0].value, 8);
}
