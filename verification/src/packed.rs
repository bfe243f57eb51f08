//! Packed field values.
//!
//! A packed value carries the constraint's evaluation at several trace
//! positions in lockstep: a fixed-width vector of lanes with componentwise
//! arithmetic and no cross-lane interaction.  The view of a packed value is
//! the sequence of its lanes' residues.

use vstd::prelude::*;

use crate::field::{fe_add, fe_mul, Fe};

verus! {

/// Componentwise product of two lane sequences (lane count taken from `s`).
pub open spec fn pw_mul(s: Seq<int>, t: Seq<int>) -> Seq<int> {
    Seq::new(s.len(), |i: int| fe_mul(s[i], t[i]))
}

/// A fixed-width vector of field elements, one per trace position.
#[derive(Debug)]
pub struct Packed {
    pub lanes: Vec<Fe>,
}

impl View for Packed {
    type V = Seq<int>;

    open spec fn view(&self) -> Seq<int> {
        self.lanes@.map(|i: int, f: Fe| f@)
    }
}

impl Packed {
    /// Every lane is a canonical residue.
    pub open spec fn valid(self) -> bool {
        forall|i: int| 0 <= i < self.lanes@.len() ==> (#[trigger] self.lanes@[i]).valid()
    }

    pub open spec fn spec_width(self) -> nat {
        self.lanes@.len()
    }

    pub fn width(&self) -> (r: usize)
        ensures
            r == self.spec_width(),
    {
        self.lanes.len()
    }

    pub fn new(lanes: Vec<Fe>) -> (r: Packed)
        requires
            forall|i: int| 0 <= i < lanes@.len() ==> (#[trigger] lanes@[i]).valid(),
        ensures
            r.valid(),
            r@ == lanes@.map(|i: int, f: Fe| f@),
            r.spec_width() == lanes@.len(),
    {
        Packed { lanes }
    }

    /// The all-zero packed value of the given width.
    pub fn zeros(width: usize) -> (r: Packed)
        ensures
            r.valid(),
            r.spec_width() == width,
            r@ =~= Seq::new(width as nat, |i: int| 0),
    {
        let mut lanes: Vec<Fe> = Vec::new();
        for k in 0..width
            invariant
                lanes@.len() == k,
                forall|i: int| 0 <= i < k ==> (#[trigger] lanes@[i]).valid() && lanes@[i]@ == 0,
        {
            lanes.push(Fe::zero());
        }
        let r = Packed { lanes };
        assert(r@ =~= Seq::new(width as nat, |i: int| 0));
        r
    }

    /// One lane's value; lane zero is the designated lane read at finalize.
    pub fn lane(&self, i: usize) -> (r: Fe)
        requires
            i < self.spec_width(),
        ensures
            r == self.lanes@[i as int],
            r@ == self@[i as int],
    {
        self.lanes[i]
    }

    /// An identical copy, lane for lane.
    pub fn duplicate(&self) -> (r: Packed)
        ensures
            r.lanes@ == self.lanes@,
            r@ == self@,
            r.valid() == self.valid(),
            r.spec_width() == self.spec_width(),
    {
        let mut lanes: Vec<Fe> = Vec::new();
        let n = self.lanes.len();
        for k in 0..n
            invariant
                n == self.lanes@.len(),
                lanes@.len() == k,
                forall|i: int| 0 <= i < k ==> lanes@[i] == self.lanes@[i],
        {
            lanes.push(self.lanes[k]);
        }
        assert(lanes@ =~= self.lanes@);
        Packed { lanes }
    }

    /// Componentwise scaling by one scalar: each lane times `alpha`.
    pub fn mul_scalar(&self, alpha: Fe) -> (r: Packed)
        requires
            self.valid(),
            alpha.valid(),
        ensures
            r.valid(),
            r.spec_width() == self.spec_width(),
            r@ =~= Seq::new(self.spec_width(), |i: int| fe_mul(self@[i], alpha@)),
    {
        let mut lanes: Vec<Fe> = Vec::new();
        let n = self.lanes.len();
        for k in 0..n
            invariant
                n == self.lanes@.len(),
                self.valid(),
                alpha.valid(),
                lanes@.len() == k,
                forall|i: int| 0 <= i < k ==>
                    (#[trigger] lanes@[i]).valid() && lanes@[i]@ == fe_mul(self@[i], alpha@),
        {
            lanes.push(self.lanes[k].mul(alpha));
        }
        let r = Packed { lanes };
        assert(r@ =~= Seq::new(self.spec_width(), |i: int| fe_mul(self@[i], alpha@)));
        r
    }

    /// Componentwise sum.
    pub fn add(&self, other: &Packed) -> (r: Packed)
        requires
            self.valid(),
            other.valid(),
            self.spec_width() == other.spec_width(),
        ensures
            r.valid(),
            r.spec_width() == self.spec_width(),
            r@ =~= Seq::new(self.spec_width(), |i: int| fe_add(self@[i], other@[i])),
    {
        let mut lanes: Vec<Fe> = Vec::new();
        let n = self.lanes.len();
        for k in 0..n
            invariant
                n == self.lanes@.len(),
                n == other.lanes@.len(),
                self.valid(),
                other.valid(),
                lanes@.len() == k,
                forall|i: int| 0 <= i < k ==>
                    (#[trigger] lanes@[i]).valid() && lanes@[i]@ == fe_add(self@[i], other@[i]),
        {
            lanes.push(self.lanes[k].add(other.lanes[k]));
        }
        let r = Packed { lanes };
        assert(r@ =~= Seq::new(self.spec_width(), |i: int| fe_add(self@[i], other@[i])));
        r
    }

    /// Componentwise product.
    pub fn mul(&self, other: &Packed) -> (r: Packed)
        requires
            self.valid(),
            other.valid(),
            self.spec_width() == other.spec_width(),
        ensures
            r.valid(),
            r.spec_width() == self.spec_width(),
            r@ =~= pw_mul(self@, other@),
    {
        let mut lanes: Vec<Fe> = Vec::new();
        let n = self.lanes.len();
        for k in 0..n
            invariant
                n == self.lanes@.len(),
                n == other.lanes@.len(),
                self.valid(),
                other.valid(),
                lanes@.len() == k,
                forall|i: int| 0 <= i < k ==>
                    (#[trigger] lanes@[i]).valid() && lanes@[i]@ == fe_mul(self@[i], other@[i]),
        {
            lanes.push(self.lanes[k].mul(other.lanes[k]));
        }
        let r = Packed { lanes };
        assert(r@ =~= pw_mul(self@, other@));
        r
    }
}

} // verus!
