//! Lookup tables: piecewise-linear functions given by points.

use vstd::prelude::*;
use vstd::string::*;
use crate::model::named::Named;
use crate::number::{lemma_order, Number};

verus! {

/// A function given by points `(x, y)` in the order of their `x`.
#[derive(Debug, Clone)]
pub struct LookupTable {
    pub name: String,
    pub points: Vec<(Number, Number)>,
}

impl Named for LookupTable {
    open spec fn label(&self) -> Seq<char> {
        self.name@
    }

    fn name_ref(&self) -> (r: &String) {
        &self.name
    }
}

/// Whether no point has an `x` below that of the point before it.
pub open spec fn sorted_by_x(points: Seq<(Number, Number)>) -> bool {
    forall|i: int| 1 <= i < points.len() ==> !(#[trigger] points[i]).0.below(points[i - 1].0)
}

/// Where an argument falls in a table.
#[derive(Debug, Clone, Copy, PartialEq, Eq)]
pub enum Located {
    /// The value is known without arithmetic: the table is empty, the argument
    /// lies outside the points or on one of them.
    Value(Number),
    /// The argument lies strictly between the points before and at this
    /// position; the value is on the line through them.
    Between(usize),
}

/// The first position from `i` on whose point has an `x` that `x` does not
/// exceed; the length when there is none.
pub open spec fn first_reaching(points: Seq<(Number, Number)>, x: Number, i: int) -> int
    decreases points.len() - i,
{
    if 0 <= i < points.len() && !x.at_most(points[i].0) {
        first_reaching(points, x, i + 1)
    } else {
        i
    }
}

pub proof fn lemma_first_reaching(points: Seq<(Number, Number)>, x: Number, i: int)
    requires
        0 <= i <= points.len(),
    ensures
        i <= first_reaching(points, x, i) <= points.len(),
        first_reaching(points, x, i) < points.len() ==> x.at_most(
            points[first_reaching(points, x, i)].0,
        ),
        forall|k: int| i <= k < first_reaching(points, x, i) ==> !x.at_most(points[k].0),
    decreases points.len() - i,
{
    if i < points.len() && !x.at_most(points[i].0) {
        lemma_first_reaching(points, x, i + 1);
    }
}

/// Where `x` falls among the points: zero for an empty table; the first `y` at
/// or before the first point and the last `y` at or after the last; the `y` of a
/// point that `x` lies on; else between two neighbours.
pub open spec fn located(points: Seq<(Number, Number)>, x: Number) -> Located {
    if points.len() == 0 {
        Located::Value(Number { bits: 0 })
    } else if x.at_most(points[0].0) {
        Located::Value(points[0].1)
    } else if points.last().0.at_most(x) {
        Located::Value(points.last().1)
    } else {
        let i = first_reaching(points, x, 1);
        if i >= points.len() {
            Located::Value(points.last().1)
        } else if x.same(points[i].0) {
            Located::Value(points[i].1)
        } else {
            Located::Between(i as usize)
        }
    }
}

impl LookupTable {
    /// A table of at least one point, with the points in the order of their `x`.
    pub fn new(name: String, points: Vec<(Number, Number)>) -> (r: Result<LookupTable, String>)
        ensures
            match r {
                Ok(t) => points@.len() > 0 && sorted_by_x(points@) && t.name == name && t.points
                    == points,
                Err(msg) => if points@.len() == 0 {
                    msg@ == "Lookup table must have at least one point"@
                } else {
                    !sorted_by_x(points@) && msg@
                        == "Lookup table points must be sorted by x value"@
                },
            },
    {
        if points.len() == 0 {
            return Err(String::from_str("Lookup table must have at least one point"));
        }
        let mut i: usize = 1;
        while i < points.len()
            invariant
                1 <= i <= points@.len(),
                forall|k: int| 1 <= k < i ==> !(#[trigger] points@[k]).0.below(points@[k - 1].0),
            decreases points@.len() - i,
        {
            if points[i].0.lt(&points[i - 1].0) {
                return Err(String::from_str("Lookup table points must be sorted by x value"));
            }
            i += 1;
        }
        Ok(LookupTable { name, points })
    }

    /// Where `x` falls among the points of the table.
    pub fn locate(&self, x: Number) -> (r: Located)
        ensures
            r == located(self.points@, x),
            r matches Located::Between(i) ==> 1 <= i < self.points@.len(),
    {
        let n = self.points.len();
        if n == 0 {
            return Located::Value(Number::zero());
        }
        if x.le(&self.points[0].0) {
            return Located::Value(self.points[0].1);
        }
        if x.ge(&self.points[n - 1].0) {
            return Located::Value(self.points[n - 1].1);
        }
        let mut i: usize = 1;
        while i < n && !x.le(&self.points[i].0)
            invariant
                n == self.points@.len(),
                1 <= i <= n,
                first_reaching(self.points@, x, 1) == first_reaching(self.points@, x, i as int),
            decreases n - i,
        {
            i += 1;
        }
        if i >= n {
            Located::Value(self.points[n - 1].1)
        } else if x.equals(&self.points[i].0) {
            Located::Value(self.points[i].1)
        } else {
            Located::Between(i)
        }
    }
}

/// At or before the first point a table gives the first `y`, and at or after the
/// last point the last `y`.
pub proof fn lemma_flat_outside(points: Seq<(Number, Number)>, x: Number)
    requires
        points.len() > 0,
    ensures
        x.at_most(points[0].0) ==> located(points, x) == Located::Value(points[0].1),
        !x.at_most(points[0].0) && points.last().0.at_most(x) ==> located(points, x)
            == Located::Value(points.last().1),
{
}

/// On a point of a sorted table, the table gives the `y` of a point with that
/// `x`: of the point itself where no other point has the same `x`.
pub proof fn lemma_exact_on_points(points: Seq<(Number, Number)>, i: int)
    requires
        sorted_by_x(points),
        0 <= i < points.len(),
        forall|k: int| 0 <= k < points.len() ==> !(#[trigger] points[k]).0.nan(),
    ensures
        exists|j: int|
            0 <= j < points.len() && (#[trigger] points[j]).0.same(points[i].0) && located(
                points,
                points[i].0,
            ) == Located::Value(points[j].1),
{
    let x = points[i].0;
    if x.at_most(points[0].0) {
        lemma_sorted_chain(points, 0, i);
        assert(points[0].0.same(x));
    } else if points.last().0.at_most(x) {
        lemma_sorted_chain(points, i, points.len() - 1);
        assert(points[points.len() - 1].0.same(x));
    } else {
        lemma_first_reaching(points, x, 1);
        let j = first_reaching(points, x, 1);
        assert(j <= i) by {
            if j > i {
                assert(!x.at_most(points[i].0));
            }
        }
        lemma_sorted_chain(points, j, i);
        assert(points[j].0.same(x));
    }
}

/// In a sorted table of numbers, an earlier point has an `x` at most that of a later one.
pub proof fn lemma_sorted_chain(points: Seq<(Number, Number)>, a: int, b: int)
    requires
        sorted_by_x(points),
        0 <= a <= b < points.len(),
        forall|k: int| 0 <= k < points.len() ==> !(#[trigger] points[k]).0.nan(),
    ensures
        points[a].0.at_most(points[b].0),
    decreases b - a,
{
    if a < b {
        lemma_sorted_chain(points, a, b - 1);
        assert(!points[b].0.below(points[b - 1].0));
        lemma_order(points[a].0, points[b - 1].0, points[b].0);
    }
}

} // verus!
