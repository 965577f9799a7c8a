use vstd::prelude::*;
use crate::project::Point;

verus! {

/// The extent of the points seen so far. Until a first point is seen it is
/// uninitialized, and its coordinates mean nothing.
#[derive(Clone, Copy, Debug)]
pub struct Bounds {
    pub minx: i64,
    pub maxx: i64,
    pub miny: i64,
    pub maxy: i64,
    pub is_init: bool,
}

pub open spec fn empty_bounds() -> Bounds {
    Bounds { minx: 0, maxx: 0, miny: 0, maxy: 0, is_init: false }
}

/// The bounds after one more point: the point itself if none was seen yet,
/// else the old extent widened just enough to hold it.
pub open spec fn widen(b: Bounds, x: i64, y: i64) -> Bounds {
    if b.is_init {
        Bounds {
            minx: if x < b.minx { x } else { b.minx },
            maxx: if x > b.maxx { x } else { b.maxx },
            miny: if y < b.miny { y } else { b.miny },
            maxy: if y > b.maxy { y } else { b.maxy },
            is_init: true,
        }
    } else {
        Bounds { minx: x, maxx: x, miny: y, maxy: y, is_init: true }
    }
}

/// One `(x, y)` pair per y component of a point.
pub open spec fn point_pairs(p: Point) -> Seq<(i64, i64)> {
    p.ys@.map_values(|y: i64| (p.x, y))
}

/// The `(x, y)` pairs of a sequence of points, point by point.
pub open spec fn pairs_of(pts: Seq<Point>) -> Seq<(i64, i64)>
    decreases pts.len(),
{
    if pts.len() == 0 {
        Seq::empty()
    } else {
        pairs_of(pts.drop_last()) + point_pairs(pts.last())
    }
}

/// The bounds after the pairs of `s`, in order.
pub open spec fn widen_all(b: Bounds, s: Seq<(i64, i64)>) -> Bounds
    decreases s.len(),
{
    if s.len() == 0 {
        b
    } else {
        let p = s.last();
        widen(widen_all(b, s.drop_last()), p.0, p.1)
    }
}

/// `outer` holds all of `inner`.
pub open spec fn holds_box(outer: Bounds, inner: Bounds) -> bool {
    outer.minx <= inner.minx && inner.maxx <= outer.maxx && outer.miny <= inner.miny
        && inner.maxy <= outer.maxy
}

pub open spec fn holds_pair(b: Bounds, x: i64, y: i64) -> bool {
    b.minx <= x <= b.maxx && b.miny <= y <= b.maxy
}

impl Default for Bounds {
    fn default() -> (b: Bounds)
        ensures
            b == empty_bounds(),
    {
        Bounds { minx: 0, maxx: 0, miny: 0, maxy: 0, is_init: false }
    }
}

impl Bounds {
    pub fn new() -> (b: Bounds)
        ensures
            b == empty_bounds(),
    {
        Bounds { minx: 0, maxx: 0, miny: 0, maxy: 0, is_init: false }
    }

    /// These bounds widened by the point `(x, y)`.
    pub fn update(&self, x: i64, y: i64) -> (r: Bounds)
        ensures
            r == widen(*self, x, y),
    {
        if self.is_init {
            Bounds {
                minx: if x < self.minx { x } else { self.minx },
                maxx: if x > self.maxx { x } else { self.maxx },
                miny: if y < self.miny { y } else { self.miny },
                maxy: if y > self.maxy { y } else { self.maxy },
                is_init: true,
            }
        } else {
            Bounds { minx: x, maxx: x, miny: y, maxy: y, is_init: true }
        }
    }

    /// These bounds widened by every `(x, y)` pair of `pts`, each y component
    /// of each point in turn.
    pub fn include_points(&self, pts: &Vec<Point>) -> (r: Bounds)
        ensures
            r == widen_all(*self, pairs_of(pts@)),
    {
        let mut b = *self;
        let mut i: usize = 0;
        proof {
            assert(pairs_of(pts@.take(0)) =~= Seq::<(i64, i64)>::empty());
        }
        while i < pts.len()
            invariant
                i <= pts@.len(),
                b == widen_all(*self, pairs_of(pts@.take(i as int))),
            decreases pts@.len() - i,
        {
            let p = &pts[i];
            let ghost done = pairs_of(pts@.take(i as int));
            let mut j: usize = 0;
            proof {
                assert(done + point_pairs(*p).take(0) =~= done);
            }
            while j < p.ys.len()
                invariant
                    j <= p.ys@.len(),
                    b == widen_all(*self, done + point_pairs(*p).take(j as int)),
                decreases p.ys@.len() - j,
            {
                let ghost before = done + point_pairs(*p).take(j as int);
                b = b.update(p.x, p.ys[j]);
                j = j + 1;
                proof {
                    let after = done + point_pairs(*p).take(j as int);
                    assert(after.drop_last() =~= before);
                    assert(after.last() == (p.x, p.ys@[j - 1]));
                }
            }
            proof {
                assert(pts@.take(i + 1).drop_last() =~= pts@.take(i as int));
                assert(point_pairs(*p).take(p.ys@.len() as int) =~= point_pairs(*p));
            }
            i = i + 1;
        }
        proof {
            assert(pts@.take(pts@.len() as int) =~= pts@);
        }
        b
    }
}

/// Widening never shrinks: bounds that were initialized hold their old extent
/// after one more point, and they hold the new point too.
pub proof fn lemma_widen_monotonic(b: Bounds, x: i64, y: i64)
    ensures
        widen(b, x, y).is_init,
        holds_pair(widen(b, x, y), x, y),
        b.is_init ==> holds_box(widen(b, x, y), b),
{
}

/// Accumulation is monotonic: after any further points the bounds hold the
/// extent they had before and every point added; they are initialized exactly
/// when they were before or some point was added.
pub proof fn lemma_widen_all_monotonic(b: Bounds, s: Seq<(i64, i64)>)
    ensures
        widen_all(b, s).is_init == (b.is_init || s.len() > 0),
        b.is_init ==> holds_box(widen_all(b, s), b),
        forall|k: int| 0 <= k < s.len() ==> #[trigger] holds_pair(widen_all(b, s), s[k].0, s[k].1),
    decreases s.len(),
{
    if s.len() > 0 {
        let prev = s.drop_last();
        lemma_widen_all_monotonic(b, prev);
        let p = s.last();
        lemma_widen_monotonic(widen_all(b, prev), p.0, p.1);
        assert forall|k: int| 0 <= k < s.len() implies #[trigger] holds_pair(widen_all(b, s), s[k].0, s[k].1) by {
            if k < s.len() - 1 {
                assert(s[k] == prev[k]);
                assert(holds_pair(widen_all(b, prev), prev[k].0, prev[k].1));
            }
        }
    }
}

} // verus!
