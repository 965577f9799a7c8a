use vstd::prelude::*;
use vstd::arithmetic::div_mod::lemma_add_mod_noop;
use crate::bounds::{
    Bounds, empty_bounds, holds_box, holds_pair, lemma_widen_all_monotonic, pairs_of, point_pairs,
    widen_all,
};
use crate::dirty::{DirtyTracker, after_frame, needs_redraw};
use crate::project::{
    Point, Selector, col_sum, field_or_zero, moving_sum, projects_to, saturate, windowed_len, x_of,
};
use crate::viewport::{map_point, pixel_x, pixel_y};

verus! {

/// Padding, in pixels, around the plotting area and the labels.
pub const PAD: i32 = 10;

/// Number of colors that lines cycle through.
pub const N_COLORS: usize = 5;

/// How every chart is plotted.
pub struct Options {
    pub fields: Selector,
    /// Width of the moving window, if the series are to be summed over one.
    pub average: Option<usize>,
    pub title: Option<String>,
}

/// One line: the points of one y series of one chart, in pixels, and the
/// color slot it is drawn in.
pub struct Polyline {
    pub color: usize,
    pub points: Vec<(i64, i64)>,
}

pub enum LabelText {
    /// A bound of the plotted data, in millionths.
    Value(i64),
    Title(String),
}

/// A text label; a negative coordinate counts back from the far edge.
pub struct Label {
    pub x: i32,
    pub y: i32,
    pub text: LabelText,
}

/// Everything one frame draws.
pub struct Frame {
    /// The plotted points of each chart, in data space.
    pub points: Vec<Vec<Point>>,
    /// The one extent shared by all charts.
    pub bounds: Bounds,
    /// Per chart, one line per y series.
    pub lines: Vec<Vec<Polyline>>,
    pub labels: Vec<Label>,
}

/// Sum of field `f` over the records at positions `lo .. hi`.
pub open spec fn rec_sum(snap: Seq<Vec<i64>>, f: int, lo: int, hi: int) -> int
    decreases hi - lo,
{
    if hi <= lo {
        0
    } else {
        rec_sum(snap, f, lo, hi - 1) + field_or_zero(snap[hi - 1]@, f) as int
    }
}

/// Number of points plotted for `n` records.
pub open spec fn point_count(average: Option<usize>, n: int) -> int {
    match average {
        None => n,
        Some(w) => windowed_len(n, w as int),
    }
}

/// `pts` are the points plotted for the records `snap`: each record projected,
/// and summed over the moving window where there is one.
pub open spec fn plotted(sel_x: Option<usize>, sel_y: Seq<usize>, average: Option<usize>, snap: Seq<Vec<i64>>, pts: Seq<Point>) -> bool {
    &&& pts.len() == point_count(average, snap.len() as int)
    &&& match average {
        None => forall|i: int| 0 <= i < pts.len() ==> #[trigger] projects_to(sel_x, sel_y, i, snap[i]@, pts[i]),
        Some(w) => {
            &&& forall|k: int| 0 <= k < pts.len() ==> (#[trigger] pts[k]).x as int == x_of(sel_x, k + w - 1, snap[k + w - 1]@)
            &&& forall|k: int| 0 <= k < pts.len() ==> (#[trigger] pts[k]).ys@.len() == sel_y.len()
            &&& forall|k: int, j: int| 0 <= k < pts.len() && 0 <= j < sel_y.len() ==> #[trigger] pts[k].ys@[j]
                == saturate(rec_sum(snap, sel_y[j] as int, k, k + w))
        },
    }
}

/// The shared extent of the points of every chart, chart by chart.
pub open spec fn frame_bounds(charts: Seq<Vec<Point>>) -> Bounds
    decreases charts.len(),
{
    if charts.len() == 0 {
        empty_bounds()
    } else {
        widen_all(frame_bounds(charts.drop_last()), pairs_of(charts.last()@))
    }
}

/// Color components of color slot `i`.
pub open spec fn palette_rgba(i: int) -> (u8, u8, u8, u8) {
    if i == 0 {
        (255, 100, 30, 200)
    } else if i == 1 {
        (60, 200, 100, 200)
    } else if i == 2 {
        (80, 114, 255, 200)
    } else if i == 3 {
        (166, 108, 90, 200)
    } else {
        (153, 78, 85, 200)
    }
}

/// The color of slot `i`; slots wrap around the palette.
pub fn palette(i: usize) -> (r: (u8, u8, u8, u8))
    ensures
        r == palette_rgba((i % N_COLORS) as int),
{
    let k = i % N_COLORS;
    if k == 0 {
        (255, 100, 30, 200)
    } else if k == 1 {
        (60, 200, 100, 200)
    } else if k == 2 {
        (80, 114, 255, 200)
    } else if k == 3 {
        (166, 108, 90, 200)
    } else {
        (153, 78, 85, 200)
    }
}

/// Without a window, a chart has one point per record; without an x field,
/// the x values are the record positions `0, 1, ..., n - 1`.
pub proof fn lemma_plain_positions(sel_y: Seq<usize>, snap: Seq<Vec<i64>>, pts: Seq<Point>)
    requires
        plotted(None, sel_y, None, snap, pts),
    ensures
        pts.len() == snap.len(),
        forall|i: int| 0 <= i < pts.len() ==> #[trigger] pts[i].x == i,
{
    assert forall|i: int| 0 <= i < pts.len() implies #[trigger] pts[i].x == i by {
        assert(projects_to(None, sel_y, i, snap[i]@, pts[i]));
    }
}

/// With a window of `w` over `n` records, a chart has `n - w - 1` points (none
/// when `n <= w + 1`); without an x field, point `k` takes the position
/// `k + w - 1` as its x, and each of its y values is the sum of the field over
/// the `w` records from position `k`, held to the `i64` range.
pub proof fn lemma_window_positions(sel_y: Seq<usize>, w: usize, snap: Seq<Vec<i64>>, pts: Seq<Point>)
    requires
        plotted(None, sel_y, Some(w), snap, pts),
    ensures
        pts.len() == if snap.len() > w + 1 { snap.len() - w - 1 } else { 0 },
        forall|k: int| 0 <= k < pts.len() ==> #[trigger] pts[k].x == k + w - 1,
        forall|k: int, j: int| 0 <= k < pts.len() && 0 <= j < sel_y.len() ==> #[trigger] pts[k].ys@[j]
            == saturate(rec_sum(snap, sel_y[j] as int, k, k + w)),
{
    assert forall|k: int| 0 <= k < pts.len() implies #[trigger] pts[k].x == k + w - 1 by {
        assert(pts[k].x as int == x_of(None, k + w - 1, snap[k + w - 1]@));
    }
}

/// `b` is initialized and holds the point `(x, y)`.
pub open spec fn covers(b: Bounds, x: i64, y: i64) -> bool {
    b.is_init && holds_pair(b, x, y)
}

proof fn lemma_sums_agree(raw: Seq<Point>, sel_x: Option<usize>, sel_y: Seq<usize>, snap: Seq<Vec<i64>>, j: int, lo: int, hi: int)
    requires
        raw.len() == snap.len(),
        forall|i: int| 0 <= i < raw.len() ==> #[trigger] projects_to(sel_x, sel_y, i, snap[i]@, raw[i]),
        0 <= j < sel_y.len(),
        0 <= lo <= hi <= raw.len(),
    ensures
        col_sum(raw, j, lo, hi) == rec_sum(snap, sel_y[j] as int, lo, hi),
    decreases hi - lo,
{
    if lo < hi {
        lemma_sums_agree(raw, sel_x, sel_y, snap, j, lo, hi - 1);
        assert(projects_to(sel_x, sel_y, hi - 1, snap[hi - 1]@, raw[hi - 1]));
    }
}

proof fn lemma_widen_all_append(b: Bounds, s1: Seq<(i64, i64)>, s2: Seq<(i64, i64)>)
    ensures
        widen_all(b, s1 + s2) == widen_all(widen_all(b, s1), s2),
    decreases s2.len(),
{
    if s2.len() > 0 {
        lemma_widen_all_append(b, s1, s2.drop_last());
        assert((s1 + s2).drop_last() =~= s1 + s2.drop_last());
    } else {
        assert(s1 + s2 =~= s1);
    }
}

/// Widening by the pairs of some points holds each of those points.
proof fn lemma_holds_points(b: Bounds, pts: Seq<Point>)
    ensures
        b.is_init ==> holds_box(widen_all(b, pairs_of(pts)), b) && widen_all(b, pairs_of(pts)).is_init,
        forall|k: int, j: int| 0 <= k < pts.len() && 0 <= j < pts[k].ys@.len() ==>
            #[trigger] covers(widen_all(b, pairs_of(pts)), pts[k].x, pts[k].ys@[j]),
    decreases pts.len(),
{
    if pts.len() > 0 {
        let prev = pts.drop_last();
        let last = pts.last();
        lemma_holds_points(b, prev);
        lemma_widen_all_append(b, pairs_of(prev), point_pairs(last));
        let mid = widen_all(b, pairs_of(prev));
        lemma_widen_all_monotonic(b, pairs_of(prev));
        lemma_widen_all_monotonic(mid, point_pairs(last));
        lemma_widen_all_monotonic(b, pairs_of(pts));
        assert(pairs_of(pts) == pairs_of(prev) + point_pairs(last));
        assert(widen_all(b, pairs_of(pts)) == widen_all(mid, point_pairs(last)));
        assert forall|k: int, j: int| 0 <= k < pts.len() && 0 <= j < pts[k].ys@.len() implies
            #[trigger] covers(widen_all(b, pairs_of(pts)), pts[k].x, pts[k].ys@[j]) by {
            if k < pts.len() - 1 {
                assert(pts[k] == prev[k]);
                assert(covers(mid, prev[k].x, prev[k].ys@[j]));
                assert(mid.is_init);
                assert(widen_all(mid, point_pairs(last)).is_init);
            } else {
                assert(point_pairs(last).len() > 0);
                assert(widen_all(mid, point_pairs(last)).is_init);
                assert(point_pairs(last)[j] == (last.x, last.ys@[j]));
                assert(holds_pair(widen_all(mid, point_pairs(last)), point_pairs(last)[j].0, point_pairs(last)[j].1));
            }
        }
    } else {
        lemma_widen_all_monotonic(b, pairs_of(pts));
    }
}

impl Options {
    /// The points plotted for one chart's records.
    pub fn chart_points(&self, snapshot: &Vec<Vec<i64>>) -> (r: Vec<Point>)
        requires
            snapshot@.len() <= i64::MAX,
            self.average matches Some(w) ==> w >= 1,
        ensures
            plotted(self.fields.x, self.fields.y@, self.average, snapshot@, r@),
            forall|k: int| 0 <= k < r@.len() ==> (#[trigger] r@[k]).ys@.len() == self.fields.y@.len(),
    {
        let raw = self.fields.project_all(snapshot);
        match self.average {
            None => {
                assert forall|k: int| 0 <= k < raw@.len() implies (#[trigger] raw@[k]).ys@.len()
                    == self.fields.y@.len() by {
                    assert(projects_to(self.fields.x, self.fields.y@, k, snapshot@[k]@, raw@[k]));
                }
                raw
            },
            Some(w) => {
                let ny = self.fields.y.len();
                assert forall|i: int| 0 <= i < raw@.len() implies (#[trigger] raw@[i]).ys@.len() == ny by {
                    assert(projects_to(self.fields.x, self.fields.y@, i, snapshot@[i]@, raw@[i]));
                }
                let r = moving_sum(&raw, w, ny);
                assert(r@.len() == point_count(self.average, snapshot@.len() as int));
                proof {
                    assert forall|k: int| 0 <= k < r@.len() implies (#[trigger] r@[k]).x as int
                        == x_of(self.fields.x, k + w - 1, snapshot@[k + w - 1]@) by {
                        assert(projects_to(self.fields.x, self.fields.y@, k + w - 1, snapshot@[k + w - 1]@, raw@[k + w - 1]));
                    }
                    assert forall|k: int, j: int| 0 <= k < r@.len() && 0 <= j < ny implies #[trigger] r@[k].ys@[j]
                        == saturate(rec_sum(snapshot@, self.fields.y@[j] as int, k, k + w)) by {
                        lemma_sums_agree(raw@, self.fields.x, self.fields.y@, snapshot@, j, k, k + w);
                    }
                }
                r
            },
        }
    }
}

/// Point count of each chart, for the records of each.
pub open spec fn counts_of(average: Option<usize>, snapshots: Seq<Vec<Vec<i64>>>) -> Seq<usize> {
    Seq::new(snapshots.len(), |c: int| point_count(average, snapshots[c]@.len() as int) as usize)
}

/// The labels of a frame: the y extent at the left, top then bottom; the x
/// extent along the bottom, left then right; the title, if any, top right.
pub open spec fn frame_labels(b: Bounds, title: Option<String>, labels: Seq<Label>) -> bool {
    &&& labels.len() == if title is Some { 5int } else { 4int }
    &&& labels[0].x == PAD && labels[0].y == PAD && labels[0].text == LabelText::Value(b.maxy)
    &&& labels[1].x == PAD && labels[1].y == -2 * PAD && labels[1].text == LabelText::Value(b.miny)
    &&& labels[2].x == PAD && labels[2].y == -PAD && labels[2].text == LabelText::Value(b.minx)
    &&& labels[3].x == -PAD && labels[3].y == -PAD && labels[3].text == LabelText::Value(b.maxx)
    &&& title matches Some(t) ==> labels[4].x == -PAD && labels[4].y == PAD && labels[4].text is Title
        && labels[4].text->Title_0@ == t@
}

/// A value in millionths rounded to hundredths, half away from zero, as its
/// sign (set for a negative value), whole part and two decimals.
pub open spec fn two_decimals(v: int) -> (bool, int, int) {
    let m = if v < 0 { -v } else { v };
    let h = (m + 5_000) / 10_000;
    (v < 0, h / 100, h % 100)
}

/// The parts in which a label shows a value.
pub fn label_parts(v: i64) -> (r: (bool, u64, u64))
    ensures
        r.0 == two_decimals(v as int).0,
        r.1 as int == two_decimals(v as int).1,
        r.2 as int == two_decimals(v as int).2,
{
    let m: u64 = if v < 0 { (0 - (v as i128)) as u64 } else { v as u64 };
    let h: u64 = ((m as u128 + 5_000) / 10_000) as u64;
    (v < 0, h / 100, h % 100)
}

/// The pixel points of y series `j` of some points.
pub fn polyline(pts: &Vec<Point>, j: usize, b: &Bounds, size: (u32, u32)) -> (r: Vec<(i64, i64)>)
    requires
        forall|k: int| 0 <= k < pts@.len() ==> j < (#[trigger] pts@[k]).ys@.len() && covers(*b, pts@[k].x, pts@[k].ys@[j as int]),
    ensures
        r@.len() == pts@.len(),
        forall|k: int| 0 <= k < r@.len() ==> #[trigger] r@[k] == (
            pixel_x(pts@[k].x as int, *b, size.0 as int, PAD as int) as i64,
            pixel_y(pts@[k].ys@[j as int] as int, *b, size.1 as int, PAD as int) as i64,
        ),
{
    let mut out: Vec<(i64, i64)> = Vec::new();
    let mut k: usize = 0;
    while k < pts.len()
        invariant
            k <= pts@.len(),
            forall|q: int| 0 <= q < pts@.len() ==> j < (#[trigger] pts@[q]).ys@.len() && covers(*b, pts@[q].x, pts@[q].ys@[j as int]),
            out@.len() == k,
            forall|q: int| 0 <= q < k ==> #[trigger] out@[q] == (
                pixel_x(pts@[q].x as int, *b, size.0 as int, PAD as int) as i64,
                pixel_y(pts@[q].ys@[j as int] as int, *b, size.1 as int, PAD as int) as i64,
            ),
        decreases pts@.len() - k,
    {
        let p = &pts[k];
        assert(covers(*b, pts@[k as int].x, pts@[k as int].ys@[j as int]));
        let m = map_point(p.x, p.ys[j], b, size, PAD as u32);
        out.push(m);
        k = k + 1;
    }
    out
}

fn copy_title(title: &Option<String>) -> (r: Option<String>)
    ensures
        r is Some == title is Some,
        title matches Some(t) ==> r->0@ == t@,
{
    match title {
        Some(t) => Some(t.clone()),
        None => None,
    }
}

/// The corner labels of a frame, and the title label if there is a title.
pub fn labels(b: &Bounds, title: &Option<String>) -> (r: Vec<Label>)
    ensures
        frame_labels(*b, *title, r@),
{
    let mut out: Vec<Label> = Vec::new();
    out.push(Label { x: PAD, y: PAD, text: LabelText::Value(b.maxy) });
    out.push(Label { x: PAD, y: -2 * PAD, text: LabelText::Value(b.miny) });
    out.push(Label { x: PAD, y: -PAD, text: LabelText::Value(b.minx) });
    out.push(Label { x: -PAD, y: -PAD, text: LabelText::Value(b.maxx) });
    let t = copy_title(title);
    match t {
        Some(t) => {
            out.push(Label { x: -PAD, y: PAD, text: LabelText::Title(t) });
        },
        None => {},
    }
    out
}

/// The registered charts, and what the last frame looked like.
pub struct ChartList {
    charts: usize,
    tracker: DirtyTracker,
}

impl View for ChartList {
    type V = (nat, (bool, (u32, u32), Seq<usize>));

    closed spec fn view(&self) -> (nat, (bool, (u32, u32), Seq<usize>)) {
        (self.charts as nat, self.tracker@)
    }
}

impl ChartList {
    pub fn new() -> (r: ChartList)
        ensures
            r@.0 == 0,
            !r@.1.0,
            r@.1.2.len() == 0,
    {
        ChartList { charts: 0, tracker: DirtyTracker::new() }
    }

    /// Registers one more chart; it starts with no points recorded.
    pub fn add(&mut self)
        requires
            old(self)@.0 < usize::MAX,
        ensures
            final(self)@.0 == old(self)@.0 + 1,
            final(self)@.1 == old(self)@.1,
    {
        self.charts = self.charts + 1;
    }

    /// Plans one frame from a snapshot of each chart's records. Returns `None`,
    /// having only recorded the frame, when nothing calls for a redraw;
    /// otherwise every chart's plotted points, their one shared extent, one
    /// line per chart and y series with colors handed out in turn across all
    /// charts, and the labels.
    pub fn draw(&mut self, snapshots: &Vec<Vec<Vec<i64>>>, size: (u32, u32), opts: &Options) -> (r: Option<Frame>)
        requires
            snapshots@.len() == old(self)@.0,
            forall|c: int| 0 <= c < snapshots@.len() ==> (#[trigger] snapshots@[c])@.len() <= i64::MAX,
            opts.average matches Some(w) ==> w >= 1,
        ensures
            final(self)@ == (old(self)@.0, after_frame(old(self)@.1, size, counts_of(opts.average, snapshots@))),
            r is None <==> !needs_redraw(old(self)@.1, size, counts_of(opts.average, snapshots@)),
            r matches Some(f) ==> {
                let ny = opts.fields.y@.len() as int;
                &&& f.points@.len() == snapshots@.len()
                &&& forall|c: int| 0 <= c < f.points@.len() ==> #[trigger] plotted(
                    opts.fields.x,
                    opts.fields.y@,
                    opts.average,
                    snapshots@[c]@,
                    f.points@[c]@,
                )
                &&& f.bounds == frame_bounds(f.points@)
                &&& f.lines@.len() == snapshots@.len()
                &&& forall|c: int| 0 <= c < f.lines@.len() ==> (#[trigger] f.lines@[c])@.len() == ny
                &&& forall|c: int, j: int| 0 <= c < f.lines@.len() && 0 <= j < ny ==> {
                    &&& (#[trigger] f.lines@[c]@[j]).color == (c * ny + j) % (N_COLORS as int)
                    &&& f.lines@[c]@[j].points@.len() == f.points@[c]@.len()
                }
                &&& forall|c: int, j: int, k: int| 0 <= c < f.lines@.len() && 0 <= j < ny && 0 <= k
                    < f.points@[c]@.len() ==> #[trigger] f.lines@[c]@[j].points@[k] == (
                    pixel_x(f.points@[c]@[k].x as int, f.bounds, size.0 as int, PAD as int) as i64,
                    pixel_y(f.points@[c]@[k].ys@[j] as int, f.bounds, size.1 as int, PAD as int) as i64,
                )
                &&& frame_labels(f.bounds, opts.title, f.labels@)
            },
    {
        let n = snapshots.len();
        let ny = opts.fields.y.len();
        let mut all: Vec<Vec<Point>> = Vec::new();
        let mut counts: Vec<usize> = Vec::new();
        let mut b = Bounds::new();
        let mut c: usize = 0;
        while c < n
            invariant
                n == snapshots@.len(),
                ny == opts.fields.y@.len(),
                c <= n,
                forall|q: int| 0 <= q < snapshots@.len() ==> (#[trigger] snapshots@[q])@.len() <= i64::MAX,
                opts.average matches Some(w) ==> w >= 1,
                all@.len() == c,
                counts@ == counts_of(opts.average, snapshots@).take(c as int),
                forall|q: int| 0 <= q < c ==> #[trigger] plotted(opts.fields.x, opts.fields.y@, opts.average, snapshots@[q]@, all@[q]@),
                forall|q: int, k: int| 0 <= q < c && 0 <= k < all@[q]@.len() ==> (#[trigger] all@[q]@[k]).ys@.len() == ny,
                b == frame_bounds(all@),
                forall|q: int, k: int, j: int| 0 <= q < c && 0 <= k < all@[q]@.len() && 0 <= j < ny ==>
                    #[trigger] covers(b, all@[q]@[k].x, all@[q]@[k].ys@[j]),
            decreases n - c,
        {
            let pts = opts.chart_points(&snapshots[c]);
            let ghost prev_all = all@;
            let ghost prev_b = b;
            proof {
                lemma_holds_points(b, pts@);
            }
            b = b.include_points(&pts);
            counts.push(pts.len());
            all.push(pts);
            c = c + 1;
            proof {
                assert(all@.drop_last() =~= prev_all);
                assert(counts@ =~= counts_of(opts.average, snapshots@).take(c as int));
                assert forall|q: int, k: int, j: int| 0 <= q < c && 0 <= k < all@[q]@.len() && 0 <= j < ny implies
                    #[trigger] covers(b, all@[q]@[k].x, all@[q]@[k].ys@[j]) by {
                    if q < c - 1 {
                        assert(all@[q] == prev_all[q]);
                        assert(covers(prev_b, prev_all[q]@[k].x, prev_all[q]@[k].ys@[j]));
                    } else {
                        assert(all@[q]@[k].ys@.len() == ny);
                    }
                }
            }
        }
        proof {
            assert(counts@ =~= counts_of(opts.average, snapshots@));
        }
        let dirty = self.tracker.decide(size, &counts);
        if !dirty {
            return None;
        }
        let mut lines: Vec<Vec<Polyline>> = Vec::new();
        let mut color: usize = 0;
        let mut c: usize = 0;
        while c < n
            invariant
                n == snapshots@.len(),
                n == all@.len(),
                ny == opts.fields.y@.len(),
                c <= n,
                forall|q: int, k: int| 0 <= q < n && 0 <= k < all@[q]@.len() ==> (#[trigger] all@[q]@[k]).ys@.len() == ny,
                forall|q: int, k: int, j: int| 0 <= q < n && 0 <= k < all@[q]@.len() && 0 <= j < ny ==>
                    #[trigger] covers(b, all@[q]@[k].x, all@[q]@[k].ys@[j]),
                color == (c * ny) % (N_COLORS as int),
                lines@.len() == c,
                forall|q: int| 0 <= q < c ==> (#[trigger] lines@[q])@.len() == ny,
                forall|q: int, j: int| 0 <= q < c && 0 <= j < ny ==> {
                    &&& (#[trigger] lines@[q]@[j]).color == (q * ny + j) % (N_COLORS as int)
                    &&& lines@[q]@[j].points@.len() == all@[q]@.len()
                },
                forall|q: int, j: int, k: int| 0 <= q < c && 0 <= j < ny && 0 <= k < all@[q]@.len() ==>
                    #[trigger] lines@[q]@[j].points@[k] == (
                    pixel_x(all@[q]@[k].x as int, b, size.0 as int, PAD as int) as i64,
                    pixel_y(all@[q]@[k].ys@[j] as int, b, size.1 as int, PAD as int) as i64,
                ),
            decreases n - c,
        {
            let mut row: Vec<Polyline> = Vec::new();
            let mut j: usize = 0;
            while j < ny
                invariant
                    n == all@.len(),
                    c < n,
                    ny == opts.fields.y@.len(),
                    j <= ny,
                    forall|q: int, k: int| 0 <= q < n && 0 <= k < all@[q]@.len() ==> (#[trigger] all@[q]@[k]).ys@.len() == ny,
                    forall|q: int, k: int, jj: int| 0 <= q < n && 0 <= k < all@[q]@.len() && 0 <= jj < ny ==>
                        #[trigger] covers(b, all@[q]@[k].x, all@[q]@[k].ys@[jj]),
                    color == (c * ny + j) % (N_COLORS as int),
                    row@.len() == j,
                    forall|jj: int| 0 <= jj < j ==> {
                        &&& (#[trigger] row@[jj]).color == (c * ny + jj) % (N_COLORS as int)
                        &&& row@[jj].points@.len() == all@[c as int]@.len()
                    },
                    forall|jj: int, k: int| 0 <= jj < j && 0 <= k < all@[c as int]@.len() ==>
                        #[trigger] row@[jj].points@[k] == (
                        pixel_x(all@[c as int]@[k].x as int, b, size.0 as int, PAD as int) as i64,
                        pixel_y(all@[c as int]@[k].ys@[jj] as int, b, size.1 as int, PAD as int) as i64,
                    ),
                decreases ny - j,
            {
                let pts = &all[c];
                assert forall|k: int| 0 <= k < pts@.len() implies j < (#[trigger] pts@[k]).ys@.len()
                    && covers(b, pts@[k].x, pts@[k].ys@[j as int]) by {
                    assert(covers(b, all@[c as int]@[k].x, all@[c as int]@[k].ys@[j as int]));
                }
                let line = polyline(pts, j, &b, size);
                row.push(Polyline { color, points: line });
                proof {
                    lemma_add_mod_noop(c * ny + j, 1, N_COLORS as int);
                }
                color = (color + 1) % N_COLORS;
                j = j + 1;
            }
            lines.push(row);
            proof {
                assert((c + 1) * ny == c * ny + ny) by (nonlinear_arith);
            }
            c = c + 1;
        }
        let labels = labels(&b, &opts.title);
        Some(Frame { points: all, bounds: b, lines, labels })
    }
}

} // verus!
