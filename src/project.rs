use vstd::prelude::*;

verus! {

/// A plotted point: an x value and one y value per selected field.
pub struct Point {
    pub x: i64,
    pub ys: Vec<i64>,
}

/// Which fields of a record give the x value and the y values.
pub struct Selector {
    pub x: Option<usize>,
    pub y: Vec<usize>,
}

/// Field `f` of a record, or zero where the record is shorter.
pub open spec fn field_or_zero(rec: Seq<i64>, f: int) -> i64 {
    if 0 <= f < rec.len() {
        rec[f]
    } else {
        0
    }
}

/// x of the record at position `i`: the selected field, or the position itself.
pub open spec fn x_of(x: Option<usize>, i: int, rec: Seq<i64>) -> int {
    match x {
        Some(f) => field_or_zero(rec, f as int) as int,
        None => i,
    }
}

/// What the record at position `i` becomes as a point.
pub open spec fn projects_to(sel_x: Option<usize>, sel_y: Seq<usize>, i: int, rec: Seq<i64>, p: Point) -> bool {
    &&& p.x as int == x_of(sel_x, i, rec)
    &&& p.ys@.len() == sel_y.len()
    &&& forall|j: int| 0 <= j < sel_y.len() ==> #[trigger] p.ys@[j] == field_or_zero(rec, sel_y[j] as int)
}

/// Sum of y component `j` over the points at positions `lo .. hi`.
pub open spec fn col_sum(pts: Seq<Point>, j: int, lo: int, hi: int) -> int
    decreases hi - lo,
{
    if hi <= lo {
        0
    } else {
        col_sum(pts, j, lo, hi - 1) + pts[hi - 1].ys@[j] as int
    }
}

/// `v`, held to the range of an `i64`.
pub open spec fn saturate(v: int) -> i64 {
    if v > i64::MAX {
        i64::MAX
    } else if v < i64::MIN {
        i64::MIN
    } else {
        v as i64
    }
}

/// Number of points that a window of `w` makes of `n` points.
pub open spec fn windowed_len(n: int, w: int) -> int {
    if n > w + 1 {
        n - w - 1
    } else {
        0
    }
}

fn field_or_zero_exec(rec: &Vec<i64>, f: usize) -> (v: i64)
    ensures
        v == field_or_zero(rec@, f as int),
{
    if f < rec.len() {
        rec[f]
    } else {
        0
    }
}

impl Selector {
    /// The point that record `line`, at position `count`, is plotted as.
    pub fn line_to_point(&self, count: usize, line: &Vec<i64>) -> (p: Point)
        requires
            count <= i64::MAX,
        ensures
            projects_to(self.x, self.y@, count as int, line@, p),
    {
        let x = match self.x {
            Some(f) => field_or_zero_exec(line, f),
            None => count as i64,
        };
        let mut ys: Vec<i64> = Vec::new();
        let mut j: usize = 0;
        while j < self.y.len()
            invariant
                j <= self.y@.len(),
                ys@.len() == j,
                forall|k: int| 0 <= k < j ==> #[trigger] ys@[k] == field_or_zero(line@, self.y@[k] as int),
            decreases self.y@.len() - j,
        {
            let v = field_or_zero_exec(line, self.y[j]);
            ys.push(v);
            j = j + 1;
        }
        Point { x, ys }
    }

    /// Every record of a snapshot as a point, in order.
    pub fn project_all(&self, snapshot: &Vec<Vec<i64>>) -> (r: Vec<Point>)
        requires
            snapshot@.len() <= i64::MAX,
        ensures
            r@.len() == snapshot@.len(),
            forall|i: int| 0 <= i < r@.len() ==> #[trigger] projects_to(self.x, self.y@, i, snapshot@[i]@, r@[i]),
    {
        let mut out: Vec<Point> = Vec::new();
        let mut i: usize = 0;
        while i < snapshot.len()
            invariant
                i <= snapshot@.len() <= i64::MAX,
                out@.len() == i,
                forall|k: int| 0 <= k < i ==> #[trigger] projects_to(self.x, self.y@, k, snapshot@[k]@, out@[k]),
            decreases snapshot@.len() - i,
        {
            let p = self.line_to_point(i, &snapshot[i]);
            out.push(p);
            i = i + 1;
        }
        out
    }
}

/// The moving-window transform: output point `k` takes its x from input point
/// `k + w - 1` and, for each component, the sum (held to the `i64` range) of
/// the input values at `k .. k + w`. There are `n - w - 1` output points for
/// `n` input points, none when `n <= w + 1`.
pub fn moving_sum(points: &Vec<Point>, w: usize, ny: usize) -> (r: Vec<Point>)
    requires
        w >= 1,
        forall|i: int| 0 <= i < points@.len() ==> (#[trigger] points@[i]).ys@.len() == ny,
    ensures
        r@.len() == windowed_len(points@.len() as int, w as int),
        forall|k: int| 0 <= k < r@.len() ==> (#[trigger] r@[k]).x == points@[k + w - 1].x,
        forall|k: int| 0 <= k < r@.len() ==> (#[trigger] r@[k]).ys@.len() == ny,
        forall|k: int, j: int| 0 <= k < r@.len() && 0 <= j < ny ==> #[trigger] r@[k].ys@[j]
            == saturate(col_sum(points@, j, k, k + w)),
{
    let n = points.len();
    let mut out: Vec<Point> = Vec::new();
    if n <= w || n - w <= 1 {
        return out;
    }
    let count = n - w - 1;
    let mut k: usize = 0;
    while k < count
        invariant
            n == points@.len(),
            count == n - w - 1,
            w >= 1,
            k <= count,
            forall|i: int| 0 <= i < points@.len() ==> (#[trigger] points@[i]).ys@.len() == ny,
            out@.len() == k,
            forall|q: int| 0 <= q < k ==> (#[trigger] out@[q]).x == points@[q + w - 1].x,
            forall|q: int| 0 <= q < k ==> (#[trigger] out@[q]).ys@.len() == ny,
            forall|q: int, j: int| 0 <= q < k && 0 <= j < ny ==> #[trigger] out@[q].ys@[j]
                == saturate(col_sum(points@, j, q, q + w)),
        decreases count - k,
    {
        let mut ys: Vec<i64> = Vec::new();
        let mut j: usize = 0;
        while j < ny
            invariant
                n == points@.len(),
                count == n - w - 1,
                k < count,
                w >= 1,
                j <= ny,
                forall|i: int| 0 <= i < points@.len() ==> (#[trigger] points@[i]).ys@.len() == ny,
                ys@.len() == j,
                forall|jj: int| 0 <= jj < j ==> #[trigger] ys@[jj] == saturate(col_sum(points@, jj, k as int, k + w)),
            decreases ny - j,
        {
            let mut acc: i128 = 0;
            let mut i: usize = k;
            while i < k + w
                invariant
                    n == points@.len(),
                    k + w < n,
                    k <= i <= k + w,
                    j < ny,
                    forall|ii: int| 0 <= ii < points@.len() ==> (#[trigger] points@[ii]).ys@.len() == ny,
                    acc == col_sum(points@, j as int, k as int, i as int),
                    -((i - k) * 0x8000_0000_0000_0000) <= acc <= (i - k) * 0x7FFF_FFFF_FFFF_FFFF,
                decreases k + w - i,
            {
                acc = acc + points[i].ys[j] as i128;
                i = i + 1;
            }
            let v: i64 = if acc > i64::MAX as i128 {
                i64::MAX
            } else if acc < i64::MIN as i128 {
                i64::MIN
            } else {
                acc as i64
            };
            ys.push(v);
            j = j + 1;
        }
        out.push(Point { x: points[k + w - 1].x, ys });
        k = k + 1;
    }
    out
}

} // verus!
