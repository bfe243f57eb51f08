use constraint_consumer::consumer::ConstraintConsumer;
use constraint_consumer::field::Fe;
use constraint_consumer::packed::Packed;
use constraint_consumer::recursive::{CircuitBuilder, RecursiveConstraintConsumer, Wire};

fn fe(v: u64) -> Fe {
    Fe::new(v)
}

fn packed1(v: u64) -> Packed {
    Packed::new(vec![fe(v)])
}

/// A builder whose first four inputs carry the session wires (challenge,
/// starting sum, first-row indicator, last-row indicator) and the rest one
/// constraint each.
fn session(n_constraints: usize) -> (CircuitBuilder, RecursiveConstraintConsumer, Vec<Wire>) {
    let b = CircuitBuilder::new(4 + n_constraints);
    let alpha = b.input_wire(0);
    let acc = b.input_wire(1);
    let lb_first = b.input_wire(2);
    let lb_last = b.input_wire(3);
    let rc = RecursiveConstraintConsumer::new(&b, alpha, acc, lb_first, lb_last);
    let cs: Vec<Wire> = (0..n_constraints).map(|i| b.input_wire(4 + i)).collect();
    (b, rc, cs)
}

fn input_values(alpha: u64, lbs: (u64, u64), cs: &[u64]) -> Vec<Fe> {
    let mut v = vec![fe(alpha), fe(0), fe(lbs.0), fe(lbs.1)];
    v.extend(cs.iter().map(|&c| fe(c)));
    v
}

#[test]
fn symbolic_matches_native_plain_fold() {
    // The critical cross-implementation check: the circuit built by the
    // symbolic accumulator, evaluated on concrete values, gives the same
    // residual as the native accumulator run on those values.
    let (mut b, mut rc, cs) = session(3);
    rc.one(&mut b, cs[0]);
    rc.one(&mut b, cs[1]);
    rc.one(&mut b, cs[2]);
    let vals = b.evaluate(input_values(2, (1, 1), &[3, 5, 7]));
    let symbolic = vals[rc.constraint_acc.index].value;

    let mut native = ConstraintConsumer::new(vec![fe(2)], packed1(1), packed1(1));
    native.one(packed1(3));
    native.one(packed1(5));
    native.one(packed1(7));
    let residuals = native.accumulators();

    assert_eq!(symbolic, residuals[0].value);
    assert_eq!(symbolic, 29);
}

#[test]
fn symbolic_matches_native_boundary_fold() {
    // Same cross-check through the boundary-filtered entry points, with the
    // first-row indicator one and the last-row indicator zero.
    let (mut b, mut rc, cs) = session(2);
    rc.one_first_row(&mut b, cs[0]);
    rc.one_last_row(&mut b, cs[1]);
    let vals = b.evaluate(input_values(2, (1, 0), &[5, 9]));
    let symbolic = vals[rc.constraint_acc.index].value;

    let mut native = ConstraintConsumer::new(vec![fe(2)], packed1(1), packed1(0));
    native.one_first_row(packed1(5));
    native.one_last_row(packed1(9));
    let residuals = native.accumulators();

    // 5 * 1 folded, then 9 * 0 folded: 5 * 2 + 0 = 10.
    assert_eq!(symbolic, residuals[0].value);
    assert_eq!(symbolic, 10);
}

#[test]
fn symbolic_batch_equals_singles() {
    let (mut b1, mut rc1, cs1) = session(3);
    rc1.many(&mut b1, cs1);
    let v1 = b1.evaluate(input_values(7, (1, 1), &[10, 20, 30]));

    let (mut b2, mut rc2, cs2) = session(3);
    for &c in cs2.iter() {
        rc2.one(&mut b2, c);
    }
    let v2 = b2.evaluate(input_values(7, (1, 1), &[10, 20, 30]));

    assert_eq!(b1.gates.len(), b2.gates.len());
    assert_eq!(
        v1[rc1.constraint_acc.index].value,
        v2[rc2.constraint_acc.index].value
    );
}

#[test]
fn evaluate_passes_inputs_through() {
    let b = CircuitBuilder::new(3);
    let vals = b.evaluate(vec![fe(4), fe(5), fe(6)]);
    assert_eq!(vals.len(), 3);
    assert_eq!(vals[0].value, 4);
    assert_eq!(vals[1].value, 5);
    assert_eq!(vals[2].value, 6);
}

#[test]
fn multiplication_gate_wraps_at_field_order() {
    // 2^32 * 2^32 leaves residue 2^32 - 1; guards evaluation against
    // handing an operand back unchanged.
    let mut b = CircuitBuilder::new(2);
    let x = b.input_wire(0);
    let y = b.input_wire(1);
    let z = b.mul(x, y);
    let two32: u64 = 1 << 32;
    let vals = b.evaluate(vec![fe(two32), fe(two32)]);
    assert_eq!(vals[z.index].value, two32 - 1);
}

#[test]
fn fused_multiply_add_gate_value() {
    let mut b = CircuitBuilder::new(3);
    let x = b.input_wire(0);
    let y = b.input_wire(1);
    let z = b.input_wire(2);
    let w = b.mul_add(x, y, z);
    let vals = b.evaluate(vec![fe(6), fe(7), fe(8)]);
    assert_eq!(vals[w.index].value, 50);
}
