//! The native accumulator.
//!
//! Constraints are folded into one running sum per challenge by Horner's
//! rule, `acc = acc * alpha + constraint`, applied lane by lane on packed
//! values.  A ghost log of the emitted constraints ties every running sum
//! to the fold of the whole sequence, so the final residuals are pinned to
//! the Horner evaluation of the constraint polynomial at each challenge.

use vstd::prelude::*;

use crate::field::{fe_add, fe_mul, Fe, FIELD_ORDER};
use crate::packed::{pw_mul, Packed};

verus! {

/// The all-zero accumulator of the given lane count.
pub open spec fn zero_lanes(width: nat) -> Seq<int> {
    Seq::new(width, |i: int| 0)
}

/// One fold step on every lane: `acc * alpha + c`, componentwise.
pub open spec fn fold_step(acc: Seq<int>, alpha: int, c: Seq<int>) -> Seq<int> {
    Seq::new(acc.len(), |i: int| fe_add(fe_mul(acc[i], alpha), c[i]))
}

/// Horner fold of a packed constraint sequence, oldest constraint first.
pub open spec fn fold_from(acc: Seq<int>, alpha: int, cs: Seq<Seq<int>>) -> Seq<int>
    decreases cs.len(),
{
    if cs.len() == 0 {
        acc
    } else {
        fold_step(fold_from(acc, alpha, cs.drop_last()), alpha, cs.last())
    }
}

/// The packed residual of a constraint sequence at one challenge: the fold
/// from the all-zero accumulator.
pub open spec fn fold_constraints(alpha: int, width: nat, cs: Seq<Seq<int>>) -> Seq<int> {
    fold_from(zero_lanes(width), alpha, cs)
}

/// Scalar Horner fold: `((acc0 * alpha + c_1) * alpha + c_2)...* alpha + c_n`.
pub open spec fn horner_from(acc0: int, alpha: int, cs: Seq<int>) -> int
    decreases cs.len(),
{
    if cs.len() == 0 {
        acc0
    } else {
        fe_add(fe_mul(horner_from(acc0, alpha, cs.drop_last()), alpha), cs.last())
    }
}

/// One lane's value in each constraint of a packed sequence.
pub open spec fn lane_values(cs: Seq<Seq<int>>, l: int) -> Seq<int> {
    cs.map(|j: int, c: Seq<int>| c[l])
}

/// The lane sequences of a vector of packed values.
pub open spec fn views_of(cs: Seq<Packed>) -> Seq<Seq<int>> {
    cs.map(|j: int, c: Packed| c@)
}

/// A fold keeps the lane count of the accumulator it starts from.
pub proof fn lemma_fold_from_len(acc: Seq<int>, alpha: int, cs: Seq<Seq<int>>)
    ensures
        fold_from(acc, alpha, cs).len() == acc.len(),
    decreases cs.len(),
{
    if cs.len() > 0 {
        lemma_fold_from_len(acc, alpha, cs.drop_last());
    }
}

/// Folds many per-row constraints into a few random linear combinations.
///
/// One running sum is kept per challenge; every emitted constraint is folded
/// into all of them in emission order.
pub struct ConstraintConsumer {
    /// Random challenges used to combine the constraints, fixed at construction.
    pub alphas: Vec<Fe>,
    /// Running sums of the emitted constraints, one per challenge.
    pub constraint_accs: Vec<Packed>,
    /// Evaluation of the Lagrange basis polynomial that is one at the point
    /// of the first trace row and zero at every other point of the domain.
    pub lagrange_basis_first: Packed,
    /// Evaluation of the Lagrange basis polynomial that is one at the point
    /// of the last trace row and zero at every other point of the domain.
    pub lagrange_basis_last: Packed,
    /// The lane sequences of the constraints emitted so far, oldest first.
    pub emitted: Ghost<Seq<Seq<int>>>,
}

impl ConstraintConsumer {
    /// The lane count every packed value of this accumulator has.
    pub open spec fn spec_width(self) -> nat {
        self.lagrange_basis_first.spec_width()
    }

    /// Well-formed: widths agree, all residues are canonical, and every
    /// running sum equals the fold of the emitted log at its challenge.
    pub open spec fn wf(self) -> bool {
        &&& 1 <= self.spec_width()
        &&& forall|i: int| 0 <= i < self.alphas@.len() ==> (#[trigger] self.alphas@[i]).valid()
        &&& self.lagrange_basis_first.valid()
        &&& self.lagrange_basis_last.valid()
        &&& self.lagrange_basis_last.spec_width() == self.spec_width()
        &&& self.constraint_accs@.len() == self.alphas@.len()
        &&& forall|i: int| 0 <= i < self.constraint_accs@.len() ==>
                (#[trigger] self.constraint_accs@[i]).valid()
        &&& forall|j: int| 0 <= j < self.emitted@.len() ==>
                (#[trigger] self.emitted@[j]).len() == self.spec_width()
        &&& forall|i: int| 0 <= i < self.constraint_accs@.len() ==>
                (#[trigger] self.constraint_accs@[i])@
                    == fold_constraints(self.alphas@[i]@, self.spec_width(), self.emitted@)
    }

    /// Starts a session: one zeroed running sum per challenge, the two
    /// boundary indicators stored unchanged.
    pub fn new(alphas: Vec<Fe>, lagrange_basis_first: Packed, lagrange_basis_last: Packed) -> (r:
        ConstraintConsumer)
        requires
            forall|i: int| 0 <= i < alphas@.len() ==> (#[trigger] alphas@[i]).valid(),
            lagrange_basis_first.valid(),
            lagrange_basis_last.valid(),
            lagrange_basis_first.spec_width() == lagrange_basis_last.spec_width(),
            1 <= lagrange_basis_first.spec_width(),
        ensures
            r.wf(),
            r.alphas == alphas,
            r.lagrange_basis_first == lagrange_basis_first,
            r.lagrange_basis_last == lagrange_basis_last,
            r.emitted@ == Seq::<Seq<int>>::empty(),
    {
        let width = lagrange_basis_first.width();
        let mut constraint_accs: Vec<Packed> = Vec::new();
        let n = alphas.len();
        for i in 0..n
            invariant
                width == lagrange_basis_first.spec_width(),
                constraint_accs@.len() == i,
                forall|k: int| 0 <= k < i ==> (#[trigger] constraint_accs@[k]).valid()
                    && constraint_accs@[k]@ =~= zero_lanes(width as nat),
        {
            constraint_accs.push(Packed::zeros(width));
        }
        ConstraintConsumer {
            alphas,
            constraint_accs,
            lagrange_basis_first,
            lagrange_basis_last,
            emitted: Ghost(Seq::empty()),
        }
    }

    /// Folds one constraint into every running sum: for each challenge
    /// `alpha_i`, `acc_i` becomes `acc_i * alpha_i + constraint`, lane by lane.
    pub fn one(&mut self, constraint: Packed)
        requires
            old(self).wf(),
            constraint.valid(),
            constraint.spec_width() == old(self).spec_width(),
        ensures
            final(self).wf(),
            final(self).alphas == old(self).alphas,
            final(self).lagrange_basis_first == old(self).lagrange_basis_first,
            final(self).lagrange_basis_last == old(self).lagrange_basis_last,
            final(self).emitted@ == old(self).emitted@.push(constraint@),
            final(self).constraint_accs@.len() == old(self).constraint_accs@.len(),
            forall|i: int| 0 <= i < old(self).constraint_accs@.len() ==>
                (#[trigger] final(self).constraint_accs@[i])@ == fold_step(
                    old(self).constraint_accs@[i]@,
                    old(self).alphas@[i]@,
                    constraint@,
                ),
    {
        let ghost prev = *self;
        let n = self.alphas.len();
        for i in 0..n
            invariant
                prev.wf(),
                constraint.valid(),
                constraint.spec_width() == prev.spec_width(),
                n == prev.alphas@.len(),
                self.alphas == prev.alphas,
                self.lagrange_basis_first == prev.lagrange_basis_first,
                self.lagrange_basis_last == prev.lagrange_basis_last,
                self.emitted == prev.emitted,
                self.constraint_accs@.len() == n,
                forall|k: int| i <= k < n ==>
                    #[trigger] self.constraint_accs@[k] == prev.constraint_accs@[k],
                forall|k: int| 0 <= k < i ==> (#[trigger] self.constraint_accs@[k]).valid()
                    && self.constraint_accs@[k]@ == fold_step(
                        prev.constraint_accs@[k]@,
                        prev.alphas@[k]@,
                        constraint@,
                    ),
        {
            proof {
                lemma_fold_from_len(
                    zero_lanes(prev.spec_width()),
                    prev.alphas@[i as int]@,
                    prev.emitted@,
                );
            }
            let alpha = self.alphas[i];
            let scaled = self.constraint_accs[i].mul_scalar(alpha);
            let updated = scaled.add(&constraint);
            proof {
                assert(updated@ =~= fold_step(
                    prev.constraint_accs@[i as int]@,
                    prev.alphas@[i as int]@,
                    constraint@,
                ));
            }
            self.constraint_accs[i] = updated;
        }
        self.emitted = Ghost(prev.emitted@.push(constraint@));
        proof {
            assert(self.emitted@.drop_last() =~= prev.emitted@);
            assert forall|i: int| 0 <= i < self.constraint_accs@.len() implies
                (#[trigger] self.constraint_accs@[i])@
                    == fold_constraints(self.alphas@[i]@, self.spec_width(), self.emitted@) by {
                assert(fold_constraints(self.alphas@[i]@, self.spec_width(), self.emitted@)
                    == fold_step(
                        fold_constraints(prev.alphas@[i]@, prev.spec_width(), prev.emitted@),
                        prev.alphas@[i]@,
                        constraint@,
                    ));
            }
        }
    }

    /// Folds a sequence of constraints, in sequence order; equivalent to the
    /// matching run of `one` calls.
    pub fn many(&mut self, constraints: Vec<Packed>)
        requires
            old(self).wf(),
            forall|j: int| 0 <= j < constraints@.len() ==> (#[trigger] constraints@[j]).valid()
                && constraints@[j].spec_width() == old(self).spec_width(),
        ensures
            final(self).wf(),
            final(self).alphas == old(self).alphas,
            final(self).lagrange_basis_first == old(self).lagrange_basis_first,
            final(self).lagrange_basis_last == old(self).lagrange_basis_last,
            final(self).emitted@ == old(self).emitted@ + views_of(constraints@),
    {
        let ghost prev = *self;
        let m = constraints.len();
        for j in 0..m
            invariant
                m == constraints@.len(),
                forall|k: int| 0 <= k < m ==> (#[trigger] constraints@[k]).valid()
                    && constraints@[k].spec_width() == prev.spec_width(),
                self.wf(),
                self.alphas == prev.alphas,
                self.lagrange_basis_first == prev.lagrange_basis_first,
                self.lagrange_basis_last == prev.lagrange_basis_last,
                self.emitted@ == prev.emitted@ + views_of(constraints@.subrange(0, j as int)),
        {
            let c = constraints[j].duplicate();
            self.one(c);
            proof {
                assert(self.emitted@ =~= prev.emitted@ + views_of(
                    constraints@.subrange(0, j as int + 1),
                ));
            }
        }
        proof {
            assert(constraints@.subrange(0, m as int) =~= constraints@);
        }
    }

    /// Folds one constraint after multiplying it by the first-row indicator,
    /// so it contributes only at the first trace row and is zeroed elsewhere.
    pub fn one_first_row(&mut self, constraint: Packed)
        requires
            old(self).wf(),
            constraint.valid(),
            constraint.spec_width() == old(self).spec_width(),
        ensures
            final(self).wf(),
            final(self).alphas == old(self).alphas,
            final(self).lagrange_basis_first == old(self).lagrange_basis_first,
            final(self).lagrange_basis_last == old(self).lagrange_basis_last,
            final(self).emitted@ == old(self).emitted@.push(
                pw_mul(constraint@, old(self).lagrange_basis_first@),
            ),
    {
        let filtered = constraint.mul(&self.lagrange_basis_first);
        self.one(filtered);
    }

    /// Folds one constraint after multiplying it by the last-row indicator,
    /// so it contributes only at the last trace row and is zeroed elsewhere.
    pub fn one_last_row(&mut self, constraint: Packed)
        requires
            old(self).wf(),
            constraint.valid(),
            constraint.spec_width() == old(self).spec_width(),
        ensures
            final(self).wf(),
            final(self).alphas == old(self).alphas,
            final(self).lagrange_basis_first == old(self).lagrange_basis_first,
            final(self).lagrange_basis_last == old(self).lagrange_basis_last,
            final(self).emitted@ == old(self).emitted@.push(
                pw_mul(constraint@, old(self).lagrange_basis_last@),
            ),
    {
        let filtered = constraint.mul(&self.lagrange_basis_last);
        self.one(filtered);
    }

    /// Finalizes the session: one residual per challenge, read from the
    /// designated lane (lane zero) of each running sum.  Each residual is
    /// the Horner fold of the whole emitted sequence at its challenge.
    pub fn accumulators(self) -> (r: Vec<Fe>)
        requires
            self.wf(),
        ensures
            r@.len() == self.alphas@.len(),
            forall|i: int| 0 <= i < r@.len() ==> (#[trigger] r@[i]).valid()
                && r@[i]@ == fold_constraints(self.alphas@[i]@, self.spec_width(), self.emitted@)[0]
                && r@[i]@ == self.constraint_accs@[i]@[0],
    {
        let mut out: Vec<Fe> = Vec::new();
        let n = self.constraint_accs.len();
        for i in 0..n
            invariant
                self.wf(),
                n == self.constraint_accs@.len(),
                out@.len() == i,
                forall|k: int| 0 <= k < i ==> (#[trigger] out@[k]).valid()
                    && out@[k]@ == fold_constraints(
                        self.alphas@[k]@,
                        self.spec_width(),
                        self.emitted@,
                    )[0],
        {
            proof {
                lemma_fold_from_len(
                    zero_lanes(self.spec_width()),
                    self.alphas@[i as int]@,
                    self.emitted@,
                );
            }
            let f = self.constraint_accs[i].lane(0);
            out.push(f);
        }
        out
    }
}

/// Law: each lane of the packed fold is the scalar Horner fold of that lane's
/// constraint values — so each residual equals
/// `((0 * alpha + c_1) * alpha + c_2)...* alpha + c_n` over its lane.
pub proof fn lemma_fold_is_horner(alpha: int, width: nat, cs: Seq<Seq<int>>, l: int)
    requires
        0 <= l < width,
        forall|j: int| 0 <= j < cs.len() ==> (#[trigger] cs[j]).len() == width,
    ensures
        fold_constraints(alpha, width, cs)[l] == horner_from(0, alpha, lane_values(cs, l)),
    decreases cs.len(),
{
    if cs.len() == 0 {
        assert(lane_values(cs, l).len() == 0);
    } else {
        lemma_fold_is_horner(alpha, width, cs.drop_last(), l);
        lemma_fold_from_len(zero_lanes(width), alpha, cs.drop_last());
        assert(lane_values(cs, l).drop_last() =~= lane_values(cs.drop_last(), l));
        assert(lane_values(cs, l).last() == cs.last()[l]);
    }
}

/// Law: in a well-formed accumulator, each running sum's designated lane is
/// the scalar Horner evaluation, at its challenge, of the polynomial whose
/// coefficients are the emitted constraints' designated-lane values.
pub proof fn lemma_residual_is_horner(c: ConstraintConsumer, i: int)
    requires
        c.wf(),
        0 <= i < c.constraint_accs@.len(),
    ensures
        c.constraint_accs@[i]@[0] == horner_from(0, c.alphas@[i]@, lane_values(c.emitted@, 0)),
{
    lemma_fold_is_horner(c.alphas@[i]@, c.spec_width(), c.emitted@, 0);
}

/// Law: folding a batch after a prefix is folding the concatenation — a
/// batched emission and the matching run of single emissions agree.
pub proof fn lemma_fold_from_append(acc: Seq<int>, alpha: int, cs: Seq<Seq<int>>, ds: Seq<Seq<int>>)
    ensures
        fold_from(acc, alpha, cs + ds) == fold_from(fold_from(acc, alpha, cs), alpha, ds),
    decreases ds.len(),
{
    if ds.len() == 0 {
        assert(cs + ds =~= cs);
    } else {
        lemma_fold_from_append(acc, alpha, cs, ds.drop_last());
        assert((cs + ds).drop_last() =~= cs + ds.drop_last());
        assert((cs + ds).last() == ds.last());
    }
}

/// Law: the running sums are determined by the challenges and the emitted
/// sequence — two well-formed accumulators that saw the same challenges and
/// the same constraints hold identical state, however it was emitted.
pub proof fn lemma_state_determined(a: ConstraintConsumer, b: ConstraintConsumer)
    requires
        a.wf(),
        b.wf(),
        a.spec_width() == b.spec_width(),
        a.alphas@.map(|i: int, f: Fe| f@) == b.alphas@.map(|i: int, f: Fe| f@),
        a.emitted@ == b.emitted@,
    ensures
        a.constraint_accs@.len() == b.constraint_accs@.len(),
        forall|i: int| 0 <= i < a.constraint_accs@.len() ==>
            (#[trigger] a.constraint_accs@[i])@ == b.constraint_accs@[i]@,
{
    let av = a.alphas@.map(|i: int, f: Fe| f@);
    let bv = b.alphas@.map(|i: int, f: Fe| f@);
    assert(av.len() == bv.len());
    assert forall|i: int| 0 <= i < a.constraint_accs@.len() implies
        (#[trigger] a.constraint_accs@[i])@ == b.constraint_accs@[i]@ by {
        assert(a.alphas@[i]@ == av[i]);
        assert(b.alphas@[i]@ == bv[i]);
    }
}

/// Law: the boundary filter keeps a constraint exactly where the indicator
/// lane is one and erases it exactly where the indicator lane is zero.
pub proof fn lemma_boundary_filter(c: Seq<int>, ind: Seq<int>, l: int)
    requires
        0 <= l < c.len(),
        0 <= c[l] < FIELD_ORDER,
    ensures
        ind[l] == 1 ==> pw_mul(c, ind)[l] == c[l],
        ind[l] == 0 ==> pw_mul(c, ind)[l] == 0,
{
    if ind[l] == 1 {
        assert(c[l] * 1 == c[l]);
        vstd::arithmetic::div_mod::lemma_small_mod(c[l] as nat, FIELD_ORDER as nat);
    }
    if ind[l] == 0 {
        assert(c[l] * 0 == 0);
    }
}

} // verus!
