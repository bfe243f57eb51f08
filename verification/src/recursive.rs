//! The circuit-symbolic accumulator.
//!
//! The same Horner fold as the native accumulator, but each arithmetic step
//! is recorded as a gate of an arithmetic circuit instead of being computed:
//! the "result" is a graph of gates that, when the circuit is evaluated on
//! concrete input values, computes the identical residual.  The graph of gates
//! is held by a builder the accumulator only borrows; wires are plain
//! handles into it.

use vstd::prelude::*;

use crate::field::{fe_add, fe_mul, Fe};
use crate::consumer::{fold_constraints, horner_from, lane_values};

verus! {

/// A handle to one node of the circuit: an input or a gate output.
#[derive(Clone, Copy, Debug, PartialEq, Eq, Structural)]
pub struct Wire {
    pub index: usize,
}

/// One arithmetic gate.  Gate `k` of a builder defines wire `inputs + k`
/// from wires with smaller indices.
#[derive(Clone, Copy, Debug, PartialEq, Eq, Structural)]
pub enum Gate {
    /// `a * b + c`: the fused multiply-add the fold is made of.
    MulAdd { a: usize, b: usize, c: usize },
    /// `a * b`: the boundary-filter multiplication.
    Mul { a: usize, b: usize },
}

/// The value a gate computes from the values of the wires before it.
pub open spec fn eval_gate(vals: Seq<int>, g: Gate) -> int {
    match g {
        Gate::MulAdd { a, b, c } => fe_add(fe_mul(vals[a as int], vals[b as int]), vals[c as int]),
        Gate::Mul { a, b } => fe_mul(vals[a as int], vals[b as int]),
    }
}

/// The values of all wires: the input values, then one value per gate, each
/// computed from the values before it.
pub open spec fn eval_gates(inputs: Seq<int>, gates: Seq<Gate>) -> Seq<int>
    decreases gates.len(),
{
    if gates.len() == 0 {
        inputs
    } else {
        let prev = eval_gates(inputs, gates.drop_last());
        prev.push(eval_gate(prev, gates.last()))
    }
}

/// Evaluation yields one value per wire.
pub proof fn lemma_eval_len(inputs: Seq<int>, gates: Seq<Gate>)
    ensures
        eval_gates(inputs, gates).len() == inputs.len() + gates.len(),
    decreases gates.len(),
{
    if gates.len() > 0 {
        lemma_eval_len(inputs, gates.drop_last());
    }
}

/// Adding gates never changes the value of a wire that already existed.
pub proof fn lemma_eval_prefix(inputs: Seq<int>, g1: Seq<Gate>, g2: Seq<Gate>)
    requires
        g1.is_prefix_of(g2),
    ensures
        forall|i: int| 0 <= i < eval_gates(inputs, g1).len() ==>
            eval_gates(inputs, g2)[i] == eval_gates(inputs, g1)[i],
    decreases g2.len(),
{
    if g2.len() > g1.len() {
        assert(g1.is_prefix_of(g2.drop_last())) by {
            assert(g2.drop_last().subrange(0, g1.len() as int) =~= g2.subrange(
                0,
                g1.len() as int,
            ));
        }
        lemma_eval_prefix(inputs, g1, g2.drop_last());
        lemma_eval_len(inputs, g1);
        lemma_eval_len(inputs, g2.drop_last());
    } else {
        assert(g1 =~= g2);
    }
}

/// Records the gates of a circuit under construction: a fixed number of
/// input wires, then one wire per recorded gate.
#[derive(Debug)]
pub struct CircuitBuilder {
    /// Number of input wires; these carry the values supplied at evaluation.
    pub inputs: usize,
    /// The recorded gates; gate `k` defines wire `inputs + k`.
    pub gates: Vec<Gate>,
}

/// A gate reads only wires defined before it.
pub open spec fn gate_wf(g: Gate, bound: int) -> bool {
    match g {
        Gate::MulAdd { a, b, c } => (a as int) < bound && (b as int) < bound && (c as int) < bound,
        Gate::Mul { a, b } => (a as int) < bound && (b as int) < bound,
    }
}

impl CircuitBuilder {
    /// Number of wires defined so far.
    pub open spec fn wire_count(self) -> int {
        self.inputs + self.gates@.len()
    }

    /// Every gate reads only wires defined before it.
    pub open spec fn wf(self) -> bool {
        forall|k: int| 0 <= k < self.gates@.len() ==>
            gate_wf(#[trigger] self.gates@[k], self.inputs + k)
    }

    /// An empty circuit with the given number of input wires.
    pub fn new(inputs: usize) -> (r: CircuitBuilder)
        ensures
            r.wf(),
            r.inputs == inputs,
            r.gates@ == Seq::<Gate>::empty(),
    {
        CircuitBuilder { inputs, gates: Vec::new() }
    }

    /// The handle of one input wire.
    pub fn input_wire(&self, i: usize) -> (r: Wire)
        requires
            i < self.inputs,
        ensures
            r.index == i,
    {
        Wire { index: i }
    }

    /// Records a fused multiply-add gate, `a * b + c`, and returns the wire
    /// carrying its value.
    pub fn mul_add(&mut self, a: Wire, b: Wire, c: Wire) -> (r: Wire)
        requires
            old(self).wf(),
            (a.index as int) < old(self).wire_count(),
            (b.index as int) < old(self).wire_count(),
            (c.index as int) < old(self).wire_count(),
            old(self).wire_count() < usize::MAX,
        ensures
            final(self).wf(),
            final(self).inputs == old(self).inputs,
            final(self).gates@ == old(self).gates@.push(
                (Gate::MulAdd { a: a.index, b: b.index, c: c.index }),
            ),
            r.index as int == old(self).wire_count(),
    {
        let r = Wire { index: self.inputs + self.gates.len() };
        self.gates.push(Gate::MulAdd { a: a.index, b: b.index, c: c.index });
        r
    }

    /// Records a multiplication gate, `a * b`, and returns the wire carrying
    /// its value.
    pub fn mul(&mut self, a: Wire, b: Wire) -> (r: Wire)
        requires
            old(self).wf(),
            (a.index as int) < old(self).wire_count(),
            (b.index as int) < old(self).wire_count(),
            old(self).wire_count() < usize::MAX,
        ensures
            final(self).wf(),
            final(self).inputs == old(self).inputs,
            final(self).gates@ == old(self).gates@.push((Gate::Mul { a: a.index, b: b.index })),
            r.index as int == old(self).wire_count(),
    {
        let r = Wire { index: self.inputs + self.gates.len() };
        self.gates.push(Gate::Mul { a: a.index, b: b.index });
        r
    }

    /// Evaluates the recorded circuit on concrete input values, returning the
    /// value of every wire.
    pub fn evaluate(&self, inputs: Vec<Fe>) -> (r: Vec<Fe>)
        requires
            self.wf(),
            inputs@.len() == self.inputs,
            forall|i: int| 0 <= i < inputs@.len() ==> (#[trigger] inputs@[i]).valid(),
        ensures
            r@.len() == self.wire_count(),
            forall|i: int| 0 <= i < r@.len() ==> (#[trigger] r@[i]).valid(),
            r@.map(|i: int, f: Fe| f@) == eval_gates(
                inputs@.map(|i: int, f: Fe| f@),
                self.gates@,
            ),
    {
        let ghost ins = inputs@.map(|i: int, f: Fe| f@);
        let mut vals: Vec<Fe> = inputs;
        let m = self.gates.len();
        for k in 0..m
            invariant
                self.wf(),
                m == self.gates@.len(),
                ins.len() == self.inputs,
                vals@.len() == self.inputs + k,
                forall|i: int| 0 <= i < vals@.len() ==> (#[trigger] vals@[i]).valid(),
                vals@.map(|i: int, f: Fe| f@) == eval_gates(ins, self.gates@.subrange(0, k as int)),
        {
            let ghost vv = vals@.map(|i: int, f: Fe| f@);
            let g = self.gates[k];
            proof {
                assert(gate_wf(g, self.inputs + k as int));
            }
            let v = match g {
                Gate::MulAdd { a, b, c } => vals[a].mul(vals[b]).add(vals[c]),
                Gate::Mul { a, b } => vals[a].mul(vals[b]),
            };
            proof {
                assert(v@ == eval_gate(vv, g));
            }
            vals.push(v);
            proof {
                let sub1 = self.gates@.subrange(0, k as int + 1);
                assert(sub1.drop_last() =~= self.gates@.subrange(0, k as int));
                assert(sub1.last() == self.gates@[k as int]);
                assert(vals@.map(|i: int, f: Fe| f@) =~= eval_gates(ins, sub1));
            }
        }
        proof {
            assert(self.gates@.subrange(0, m as int) =~= self.gates@);
        }
        vals
    }
}

/// Under every assignment of input values, wire `w` carries the product of
/// the values of wires `x` and `y`.
pub open spec fn wire_is_product(b: CircuitBuilder, w: Wire, x: Wire, y: Wire) -> bool {
    forall|ins: Seq<int>| #![trigger eval_gates(ins, b.gates@)]
        ins.len() == b.inputs ==> {
            let v = eval_gates(ins, b.gates@);
            v[w.index as int] == fe_mul(v[x.index as int], v[y.index as int])
        }
}

/// Folds constraint wires into one running-sum wire by recording gates.
///
/// The circuit-symbolic twin of the native accumulator, with exactly one
/// challenge wire and one running-sum wire.  The builder is an external,
/// shared resource: it is borrowed for the duration of each call and never
/// owned.
pub struct RecursiveConstraintConsumer {
    /// The challenge wire the constraints are combined with.
    pub alpha: Wire,
    /// The running-sum wire; replaced by a fresh gate output at each fold.
    pub constraint_acc: Wire,
    /// Wire carrying the first-row Lagrange basis evaluation.
    pub lagrange_basis_first: Wire,
    /// Wire carrying the last-row Lagrange basis evaluation.
    pub lagrange_basis_last: Wire,
    /// The running-sum wire this session started from.
    pub start_acc: Ghost<Wire>,
    /// The constraint wires folded so far, oldest first.
    pub emitted: Ghost<Seq<Wire>>,
}

impl RecursiveConstraintConsumer {
    /// All wires of this session exist in the builder.
    pub open spec fn wires_in(self, b: CircuitBuilder) -> bool {
        &&& (self.alpha.index as int) < b.wire_count()
        &&& (self.constraint_acc.index as int) < b.wire_count()
        &&& (self.lagrange_basis_first.index as int) < b.wire_count()
        &&& (self.lagrange_basis_last.index as int) < b.wire_count()
        &&& (self.start_acc@.index as int) < b.wire_count()
        &&& forall|j: int| 0 <= j < self.emitted@.len() ==>
                ((#[trigger] self.emitted@[j]).index as int) < b.wire_count()
    }

    /// Under every assignment of input values, the running-sum wire evaluates
    /// to the Horner fold of the emitted constraint wires' values, starting
    /// from the start wire's value at the challenge wire's value.
    pub open spec fn acc_is_fold(self, b: CircuitBuilder) -> bool {
        forall|ins: Seq<int>| #![trigger eval_gates(ins, b.gates@)]
            ins.len() == b.inputs ==> {
                let v = eval_gates(ins, b.gates@);
                v[self.constraint_acc.index as int] == horner_from(
                    v[self.start_acc@.index as int],
                    v[self.alpha.index as int],
                    self.emitted@.map(|j: int, w: Wire| v[w.index as int]),
                )
            }
    }

    /// Well-formed with respect to the builder it is recording into.
    pub open spec fn wf(self, b: CircuitBuilder) -> bool {
        &&& b.wf()
        &&& self.wires_in(b)
        &&& self.acc_is_fold(b)
    }

    /// Starts a session on existing wires; the given running-sum wire is the
    /// fold's starting point (a zero wire, in the surrounding protocol).
    pub fn new(
        builder: &CircuitBuilder,
        alpha: Wire,
        constraint_acc: Wire,
        lagrange_basis_first: Wire,
        lagrange_basis_last: Wire,
    ) -> (r: RecursiveConstraintConsumer)
        requires
            builder.wf(),
            (alpha.index as int) < builder.wire_count(),
            (constraint_acc.index as int) < builder.wire_count(),
            (lagrange_basis_first.index as int) < builder.wire_count(),
            (lagrange_basis_last.index as int) < builder.wire_count(),
        ensures
            r.wf(*builder),
            r.alpha == alpha,
            r.constraint_acc == constraint_acc,
            r.lagrange_basis_first == lagrange_basis_first,
            r.lagrange_basis_last == lagrange_basis_last,
            r.start_acc@ == constraint_acc,
            r.emitted@ == Seq::<Wire>::empty(),
    {
        RecursiveConstraintConsumer {
            alpha,
            constraint_acc,
            lagrange_basis_first,
            lagrange_basis_last,
            start_acc: Ghost(constraint_acc),
            emitted: Ghost(Seq::empty()),
        }
    }

    /// Records one fold step: the running-sum wire becomes the output of a
    /// fused multiply-add gate computing `acc * alpha + constraint`.
    pub fn one(&mut self, builder: &mut CircuitBuilder, constraint: Wire)
        requires
            old(self).wf(*old(builder)),
            (constraint.index as int) < old(builder).wire_count(),
            old(builder).wire_count() < usize::MAX,
        ensures
            final(self).wf(*final(builder)),
            final(builder).inputs == old(builder).inputs,
            final(builder).gates@ == old(builder).gates@.push(
                (Gate::MulAdd {
                    a: old(self).constraint_acc.index,
                    b: old(self).alpha.index,
                    c: constraint.index,
                }),
            ),
            final(self).alpha == old(self).alpha,
            final(self).lagrange_basis_first == old(self).lagrange_basis_first,
            final(self).lagrange_basis_last == old(self).lagrange_basis_last,
            final(self).start_acc == old(self).start_acc,
            final(self).emitted@ == old(self).emitted@.push(constraint),
            final(self).constraint_acc.index as int == old(builder).wire_count(),
    {
        let ghost prevb = *builder;
        let ghost prevs = *self;
        let fresh = builder.mul_add(self.constraint_acc, self.alpha, constraint);
        self.constraint_acc = fresh;
        self.emitted = Ghost(prevs.emitted@.push(constraint));
        proof {
            let b2 = *builder;
            assert forall|ins: Seq<int>| #![trigger eval_gates(ins, b2.gates@)]
                ins.len() == b2.inputs implies {
                let v = eval_gates(ins, b2.gates@);
                v[self.constraint_acc.index as int] == horner_from(
                    v[self.start_acc@.index as int],
                    v[self.alpha.index as int],
                    self.emitted@.map(|j: int, w: Wire| v[w.index as int]),
                )
            } by {
                let v1 = eval_gates(ins, prevb.gates@);
                lemma_eval_len(ins, prevb.gates@);
                lemma_eval_len(ins, b2.gates@);
                assert(b2.gates@.drop_last() =~= prevb.gates@);
                let v = eval_gates(ins, b2.gates@);
                assert(v == v1.push(eval_gate(v1, b2.gates@.last())));
                assert(v1.len() == prevb.wire_count());
                assert(eval_gates(ins, prevb.gates@) == v1);
                assert(v1[prevs.constraint_acc.index as int] == horner_from(
                    v1[prevs.start_acc@.index as int],
                    v1[prevs.alpha.index as int],
                    prevs.emitted@.map(|j: int, w: Wire| v1[w.index as int]),
                ));
                let m2 = self.emitted@.map(|j: int, w: Wire| v[w.index as int]);
                let m1 = prevs.emitted@.map(|j: int, w: Wire| v1[w.index as int]);
                assert(m2.drop_last() =~= m1);
                assert(m2.last() == v[constraint.index as int]);
                assert(v[self.constraint_acc.index as int] == eval_gate(v1, b2.gates@.last()));
            }
        }
    }

    /// Records one boundary-filtered fold step: the constraint wire is first
    /// multiplied by the first-row indicator wire, so the folded value
    /// contributes only at the first trace row and is zero elsewhere.
    pub fn one_first_row(&mut self, builder: &mut CircuitBuilder, constraint: Wire)
        requires
            old(self).wf(*old(builder)),
            (constraint.index as int) < old(builder).wire_count(),
            old(builder).wire_count() + 2 <= usize::MAX,
        ensures
            final(self).wf(*final(builder)),
            final(builder).inputs == old(builder).inputs,
            final(builder).gates@.len() == old(builder).gates@.len() + 2,
            old(builder).gates@.is_prefix_of(final(builder).gates@),
            final(self).alpha == old(self).alpha,
            final(self).lagrange_basis_first == old(self).lagrange_basis_first,
            final(self).lagrange_basis_last == old(self).lagrange_basis_last,
            final(self).start_acc == old(self).start_acc,
            final(self).emitted@.len() == old(self).emitted@.len() + 1,
            final(self).emitted@.drop_last() == old(self).emitted@,
            final(self).emitted@.last().index as int == old(builder).wire_count(),
            wire_is_product(
                *final(builder),
                final(self).emitted@.last(),
                constraint,
                old(self).lagrange_basis_first,
            ),
            final(self).constraint_acc.index as int == old(builder).wire_count() + 1,
    {
        let ghost prevb = *builder;
        let filtered = builder.mul(constraint, self.lagrange_basis_first);
        proof {
            lemma_wf_builder_extend(*self, prevb, *builder);
        }
        let ghost midb = *builder;
        self.one(builder, filtered);
        proof {
            lemma_filtered_value(prevb, midb, *builder, filtered, constraint,
                self.lagrange_basis_first);
            assert(self.emitted@.drop_last() =~= old(self).emitted@);
        }
    }

    /// Records one boundary-filtered fold step against the last-row
    /// indicator wire; symmetric to `one_first_row`.
    pub fn one_last_row(&mut self, builder: &mut CircuitBuilder, constraint: Wire)
        requires
            old(self).wf(*old(builder)),
            (constraint.index as int) < old(builder).wire_count(),
            old(builder).wire_count() + 2 <= usize::MAX,
        ensures
            final(self).wf(*final(builder)),
            final(builder).inputs == old(builder).inputs,
            final(builder).gates@.len() == old(builder).gates@.len() + 2,
            old(builder).gates@.is_prefix_of(final(builder).gates@),
            final(self).alpha == old(self).alpha,
            final(self).lagrange_basis_first == old(self).lagrange_basis_first,
            final(self).lagrange_basis_last == old(self).lagrange_basis_last,
            final(self).start_acc == old(self).start_acc,
            final(self).emitted@.len() == old(self).emitted@.len() + 1,
            final(self).emitted@.drop_last() == old(self).emitted@,
            final(self).emitted@.last().index as int == old(builder).wire_count(),
            wire_is_product(
                *final(builder),
                final(self).emitted@.last(),
                constraint,
                old(self).lagrange_basis_last,
            ),
            final(self).constraint_acc.index as int == old(builder).wire_count() + 1,
    {
        let ghost prevb = *builder;
        let filtered = builder.mul(constraint, self.lagrange_basis_last);
        proof {
            lemma_wf_builder_extend(*self, prevb, *builder);
        }
        let ghost midb = *builder;
        self.one(builder, filtered);
        proof {
            lemma_filtered_value(prevb, midb, *builder, filtered, constraint,
                self.lagrange_basis_last);
            assert(self.emitted@.drop_last() =~= old(self).emitted@);
        }
    }

    /// Records the fold of a sequence of constraint wires, in sequence order;
    /// equivalent to the matching run of `one` calls.
    pub fn many(&mut self, builder: &mut CircuitBuilder, constraints: Vec<Wire>)
        requires
            old(self).wf(*old(builder)),
            forall|j: int| 0 <= j < constraints@.len() ==>
                ((#[trigger] constraints@[j]).index as int) < old(builder).wire_count(),
            old(builder).wire_count() + constraints@.len() <= usize::MAX,
        ensures
            final(self).wf(*final(builder)),
            final(builder).inputs == old(builder).inputs,
            final(builder).gates@.len() == old(builder).gates@.len() + constraints@.len(),
            old(builder).gates@.is_prefix_of(final(builder).gates@),
            final(self).alpha == old(self).alpha,
            final(self).lagrange_basis_first == old(self).lagrange_basis_first,
            final(self).lagrange_basis_last == old(self).lagrange_basis_last,
            final(self).start_acc == old(self).start_acc,
            final(self).emitted@ == old(self).emitted@ + constraints@,
    {
        let ghost prevb = *builder;
        let ghost prevs = *self;
        let m = constraints.len();
        for j in 0..m
            invariant
                m == constraints@.len(),
                forall|k: int| 0 <= k < m ==>
                    ((#[trigger] constraints@[k]).index as int) < prevb.wire_count(),
                prevb.wire_count() + m <= usize::MAX,
                self.wf(*builder),
                builder.inputs == prevb.inputs,
                builder.gates@.len() == prevb.gates@.len() + j,
                prevb.gates@.is_prefix_of(builder.gates@),
                self.alpha == prevs.alpha,
                self.lagrange_basis_first == prevs.lagrange_basis_first,
                self.lagrange_basis_last == prevs.lagrange_basis_last,
                self.start_acc == prevs.start_acc,
                self.emitted@ == prevs.emitted@ + constraints@.subrange(0, j as int),
        {
            let ghost gb = *builder;
            let c = constraints[j];
            self.one(builder, c);
            proof {
                assert(prevb.gates@.is_prefix_of(builder.gates@)) by {
                    assert(builder.gates@.subrange(0, prevb.gates@.len() as int) =~= gb.gates@
                        .subrange(0, prevb.gates@.len() as int));
                }
                assert(self.emitted@ =~= prevs.emitted@ + constraints@.subrange(0, j as int + 1));
            }
        }
        proof {
            assert(constraints@.subrange(0, m as int) =~= constraints@);
        }
    }
}

/// Growing the circuit preserves a session's well-formedness: appended gates
/// cannot change the value of any wire the session refers to.
pub proof fn lemma_wf_builder_extend(
    rc: RecursiveConstraintConsumer,
    b1: CircuitBuilder,
    b2: CircuitBuilder,
)
    requires
        rc.wf(b1),
        b2.wf(),
        b2.inputs == b1.inputs,
        b1.gates@.is_prefix_of(b2.gates@),
    ensures
        rc.wf(b2),
{
    assert forall|ins: Seq<int>| #![trigger eval_gates(ins, b2.gates@)]
        ins.len() == b2.inputs implies {
        let v = eval_gates(ins, b2.gates@);
        v[rc.constraint_acc.index as int] == horner_from(
            v[rc.start_acc@.index as int],
            v[rc.alpha.index as int],
            rc.emitted@.map(|j: int, w: Wire| v[w.index as int]),
        )
    } by {
        let v1 = eval_gates(ins, b1.gates@);
        let v2 = eval_gates(ins, b2.gates@);
        lemma_eval_len(ins, b1.gates@);
        lemma_eval_len(ins, b2.gates@);
        lemma_eval_prefix(ins, b1.gates@, b2.gates@);
        assert(v1[rc.constraint_acc.index as int] == horner_from(
            v1[rc.start_acc@.index as int],
            v1[rc.alpha.index as int],
            rc.emitted@.map(|j: int, w: Wire| v1[w.index as int]),
        ));
        assert(rc.emitted@.map(|j: int, w: Wire| v2[w.index as int]) =~= rc.emitted@.map(
            |j: int, w: Wire| v1[w.index as int],
        ));
    }
}

/// After a multiplication gate on wires of `b0` and then any further gates,
/// its output wire carries the product of its operands' values.
proof fn lemma_filtered_value(
    b0: CircuitBuilder,
    b1: CircuitBuilder,
    b2: CircuitBuilder,
    filtered: Wire,
    x: Wire,
    y: Wire,
)
    requires
        (x.index as int) < b0.wire_count(),
        (y.index as int) < b0.wire_count(),
        b1.gates@ == b0.gates@.push((Gate::Mul { a: x.index, b: y.index })),
        b1.inputs == b0.inputs,
        filtered.index as int == b0.wire_count(),
        b1.gates@.is_prefix_of(b2.gates@),
        b2.inputs == b1.inputs,
    ensures
        wire_is_product(b2, filtered, x, y),
{
    assert forall|ins: Seq<int>| #![trigger eval_gates(ins, b2.gates@)]
        ins.len() == b2.inputs implies {
        let v = eval_gates(ins, b2.gates@);
        v[filtered.index as int] == fe_mul(v[x.index as int], v[y.index as int])
    } by {
        let v0 = eval_gates(ins, b0.gates@);
        let v1 = eval_gates(ins, b1.gates@);
        let v2 = eval_gates(ins, b2.gates@);
        lemma_eval_len(ins, b0.gates@);
        lemma_eval_len(ins, b1.gates@);
        lemma_eval_len(ins, b2.gates@);
        lemma_eval_prefix(ins, b1.gates@, b2.gates@);
        assert(b1.gates@.drop_last() =~= b0.gates@);
        assert(v1 == v0.push(eval_gate(v0, b1.gates@.last())));
        assert(v1[filtered.index as int] == fe_mul(v0[x.index as int], v0[y.index as int]));
    }
}

/// Law: native/symbolic equivalence.  When the start wire carries zero, the
/// symbolic accumulator's running-sum wire evaluates, under any assignment of
/// input values, to exactly the native accumulator's residual for the same
/// challenge value and the same constraint values: the designated lane of the
/// packed fold of those constraints.
pub proof fn lemma_native_symbolic_equivalence(
    rc: RecursiveConstraintConsumer,
    b: CircuitBuilder,
    ins: Seq<int>,
    width: nat,
    cs: Seq<Seq<int>>,
    l: int,
)
    requires
        rc.wf(b),
        ins.len() == b.inputs,
        eval_gates(ins, b.gates@)[rc.start_acc@.index as int] == 0,
        0 <= l < width,
        forall|j: int| 0 <= j < cs.len() ==> (#[trigger] cs[j]).len() == width,
        lane_values(cs, l) == rc.emitted@.map(
            |j: int, w: Wire| eval_gates(ins, b.gates@)[w.index as int],
        ),
    ensures
        eval_gates(ins, b.gates@)[rc.constraint_acc.index as int] == fold_constraints(
            eval_gates(ins, b.gates@)[rc.alpha.index as int],
            width,
            cs,
        )[l],
{
    let v = eval_gates(ins, b.gates@);
    assert(v[rc.constraint_acc.index as int] == horner_from(
        v[rc.start_acc@.index as int],
        v[rc.alpha.index as int],
        rc.emitted@.map(|j: int, w: Wire| v[w.index as int]),
    ));
    crate::consumer::lemma_fold_is_horner(v[rc.alpha.index as int], width, cs, l);
}

} // verus!
