use vstd::prelude::*;

verus! {

/// What the previous frame looked like: whether there was one, the canvas
/// size, and the largest point count seen per chart.
pub struct DirtyTracker {
    seen: bool,
    last_size: (u32, u32),
    counts: Vec<usize>,
}

/// Count recorded for chart `i`, zero for a chart not seen yet.
pub open spec fn count_at(cs: Seq<usize>, i: int) -> int {
    if 0 <= i < cs.len() {
        cs[i] as int
    } else {
        0
    }
}

pub open spec fn max_len(a: int, b: int) -> int {
    if a >= b {
        a
    } else {
        b
    }
}

impl View for DirtyTracker {
    type V = (bool, (u32, u32), Seq<usize>);

    closed spec fn view(&self) -> (bool, (u32, u32), Seq<usize>) {
        (self.seen, self.last_size, self.counts@)
    }
}

/// A redraw is owed on the first frame, when the canvas size changed, or when
/// some chart has more points than recorded.
pub open spec fn needs_redraw(prev: (bool, (u32, u32), Seq<usize>), size: (u32, u32), counts: Seq<usize>) -> bool {
    !prev.0 || size != prev.1 || exists|i: int| 0 <= i < counts.len() && #[trigger] counts[i] > count_at(prev.2, i)
}

/// What is recorded after a frame: that there was one, its canvas size, and
/// per chart the larger of the recorded and the current point count.
pub open spec fn after_frame(prev: (bool, (u32, u32), Seq<usize>), size: (u32, u32), counts: Seq<usize>) -> (bool, (u32, u32), Seq<usize>) {
    (
        true,
        size,
        Seq::new(
            max_len(prev.2.len() as int, counts.len() as int) as nat,
            |i: int| max_len(count_at(prev.2, i), count_at(counts, i)) as usize,
        ),
    )
}

impl DirtyTracker {
    pub fn new() -> (t: DirtyTracker)
        ensures
            !t@.0,
            t@.2.len() == 0,
    {
        DirtyTracker { seen: false, last_size: (0, 0), counts: Vec::new() }
    }

    /// Decides whether this frame must be drawn, and records the frame.
    pub fn decide(&mut self, size: (u32, u32), counts: &Vec<usize>) -> (r: bool)
        ensures
            r == needs_redraw(old(self)@, size, counts@),
            final(self)@ == after_frame(old(self)@, size, counts@),
    {
        let ghost prev = self@;
        let mut changed = !self.seen || size.0 != self.last_size.0 || size.1 != self.last_size.1;
        self.seen = true;
        self.last_size = size;
        let mut i: usize = 0;
        while i < counts.len()
            invariant
                i <= counts@.len(),
                self.seen,
                self.last_size == size,
                self.counts@.len() == max_len(prev.2.len() as int, i as int),
                forall|k: int| 0 <= k < self.counts@.len() ==> #[trigger] self.counts@[k] as int
                    == if k < i { max_len(count_at(prev.2, k), count_at(counts@, k)) } else { prev.2[k] as int },
                changed == (!prev.0 || size != prev.1 || exists|k: int| 0 <= k < i && #[trigger] counts@[k] > count_at(prev.2, k)),
            decreases counts@.len() - i,
        {
            let c = counts[i];
            if i < self.counts.len() {
                if c > self.counts[i] {
                    self.counts.set(i, c);
                    changed = true;
                }
            } else {
                self.counts.push(c);
                if c > 0 {
                    changed = true;
                }
            }
            i = i + 1;
        }
        proof {
            assert(self.counts@ =~= after_frame(prev, size, counts@).2);
        }
        changed
    }
}

/// The first frame is always drawn; a frame that repeats the previous one's
/// canvas size and point counts is not; one where some chart gained points is.
pub proof fn lemma_redraw_rules(
    prev: (bool, (u32, u32), Seq<usize>),
    size: (u32, u32),
    counts: Seq<usize>,
    i: int,
)
    ensures
        !prev.0 ==> needs_redraw(prev, size, counts),
        !needs_redraw(after_frame(prev, size, counts), size, counts),
        0 <= i < counts.len() && counts[i] > count_at(prev.2, i) ==> needs_redraw(prev, size, counts),
{
    let next = after_frame(prev, size, counts);
    assert forall|k: int| 0 <= k < counts.len() implies !(#[trigger] counts[k] > count_at(next.2, k)) by {
        assert(next.2[k] as int == max_len(count_at(prev.2, k), count_at(counts, k)));
    }
}

} // verus!
