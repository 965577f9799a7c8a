use vstd::prelude::*;

verus! {

/// The records of one source, in arrival order. Records are only ever
/// appended: never reordered, changed or removed.
pub struct Series {
    records: Vec<Vec<i64>>,
}

impl View for Series {
    type V = Seq<Seq<i64>>;

    closed spec fn view(&self) -> Seq<Seq<i64>> {
        self.records@.map_values(|r: Vec<i64>| r@)
    }
}

fn copy_record(r: &Vec<i64>) -> (c: Vec<i64>)
    ensures
        c@ == r@,
{
    let mut c: Vec<i64> = Vec::new();
    let mut i: usize = 0;
    while i < r.len()
        invariant
            i <= r@.len(),
            c@ == r@.take(i as int),
        decreases r@.len() - i,
    {
        c.push(r[i]);
        i = i + 1;
        proof {
            assert(c@ =~= r@.take(i as int));
        }
    }
    proof {
        assert(r@.take(r@.len() as int) =~= r@);
    }
    c
}

impl Series {
    pub fn new() -> (s: Series)
        ensures
            s@ == Seq::<Seq<i64>>::empty(),
    {
        let s = Series { records: Vec::new() };
        proof {
            assert(s@ =~= Seq::<Seq<i64>>::empty());
        }
        s
    }

    /// Appends one record at the end.
    pub fn push(&mut self, line: Vec<i64>)
        ensures
            final(self)@ == old(self)@.push(line@),
    {
        self.records.push(line);
        proof {
            assert(self@ =~= old(self)@.push(line@));
        }
    }

    pub fn len(&self) -> (n: usize)
        ensures
            n == self@.len(),
    {
        self.records.len()
    }

    /// A copy of every record held now, in order.
    pub fn snapshot(&self) -> (r: Vec<Vec<i64>>)
        ensures
            r@.map_values(|v: Vec<i64>| v@) == self@,
    {
        let mut out: Vec<Vec<i64>> = Vec::new();
        let mut i: usize = 0;
        while i < self.records.len()
            invariant
                i <= self@.len(),
                self@.len() == self.records@.len(),
                out@.len() == i,
                forall|j: int| 0 <= j < i ==> #[trigger] out@[j]@ == self.records@[j]@,
            decreases self@.len() - i,
        {
            let c = copy_record(&self.records[i]);
            out.push(c);
            i = i + 1;
        }
        proof {
            assert(out@.map_values(|v: Vec<i64>| v@) =~= self@);
        }
        out
    }
}

/// Appending keeps what was there: the series before a push is a prefix of the
/// series after it, so any two snapshots taken in turn are prefixes of one
/// another, the earlier of the later.
pub proof fn lemma_push_keeps_prefix(before: Series, line: Seq<i64>, after: Series)
    requires
        after@ == before@.push(line),
    ensures
        before@.is_prefix_of(after@),
        after@.len() == before@.len() + 1,
        after@.last() == line,
{
    assert(after@.take(before@.len() as int) =~= before@);
}

} // verus!
