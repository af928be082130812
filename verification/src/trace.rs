//! The gap rule of the pitch trace: which drawn points are joined into one
//! polyline. A point is drawn or it is a gap; a gap ends the line in
//! progress, and nothing is ever interpolated across it.
use vstd::prelude::*;

verus! {

/// The unbroken runs of `marks`: consecutive drawn points belong to one run,
/// and a gap (`None`) closes the run in progress.
pub open spec fn runs<P>(marks: Seq<Option<P>>) -> Seq<Seq<P>>
    decreases marks.len(),
{
    if marks.len() == 0 {
        Seq::empty()
    } else {
        let prev = runs(marks.drop_last());
        match marks.last() {
            None => prev,
            Some(p) => if marks.len() >= 2 && marks[marks.len() - 2] is Some {
                prev.update(prev.len() - 1, prev.last().push(p))
            } else {
                prev.push(seq![p])
            },
        }
    }
}

/// The drawn points of `marks`, in order.
pub open spec fn drawn<P>(marks: Seq<Option<P>>) -> Seq<P>
    decreases marks.len(),
{
    if marks.len() == 0 {
        Seq::empty()
    } else {
        match marks.last() {
            None => drawn(marks.drop_last()),
            Some(p) => drawn(marks.drop_last()).push(p),
        }
    }
}

/// The runs laid end to end.
pub open spec fn joined<P>(rs: Seq<Seq<P>>) -> Seq<P>
    decreases rs.len(),
{
    if rs.len() == 0 {
        Seq::empty()
    } else {
        joined(rs.drop_last()) + rs.last()
    }
}

/// How many runs begin in `marks`: drawn points that are first or follow a gap.
pub open spec fn run_starts<P>(marks: Seq<Option<P>>) -> nat
    decreases marks.len(),
{
    if marks.len() == 0 {
        0
    } else {
        let before = run_starts(marks.drop_last());
        if marks.last() is Some && (marks.len() < 2 || marks[marks.len() - 2] is None) {
            before + 1
        } else {
            before
        }
    }
}

/// Splits a sequence of drawn points and gaps into its unbroken runs, in
/// order. Leading, trailing and repeated gaps produce no empty run.
pub fn segment_runs<P: Copy>(marks: &[Option<P>]) -> (r: Vec<Vec<P>>)
    ensures
        r@.len() == runs(marks@).len(),
        forall|k: int| 0 <= k < r@.len() ==> r@[k]@ == runs(marks@)[k],
{
    let mut segments: Vec<Vec<P>> = Vec::new();
    let mut current: Vec<P> = Vec::new();
    let n = marks.len();
    let mut i: usize = 0;
    while i < n
        invariant
            n == marks@.len(),
            0 <= i <= n,
            (current@.len() > 0) <==> (i > 0 && marks@[i - 1] is Some),
            current@.len() > 0 ==> runs(marks@.take(i as int)).len() == segments@.len() + 1
                && runs(marks@.take(i as int)).last() == current@,
            current@.len() == 0 ==> runs(marks@.take(i as int)).len() == segments@.len(),
            forall|k: int| 0 <= k < segments@.len() ==> segments@[k]@ == runs(marks@.take(i as int))[k],
        decreases n - i,
    {
        let ghost before = marks@.take(i as int);
        assert(marks@.take(i + 1).drop_last() =~= before);
        assert(marks@.take(i + 1).last() == marks@[i as int]);
        match marks[i] {
            Some(p) => {
                current.push(p);
            },
            None => {
                if current.len() > 0 {
                    let mut run: Vec<P> = Vec::new();
                    std::mem::swap(&mut run, &mut current);
                    segments.push(run);
                }
            },
        }
        i = i + 1;
    }
    if current.len() > 0 {
        segments.push(current);
    }
    assert(marks@.take(n as int) =~= marks@);
    segments
}

/// No run is empty.
pub proof fn lemma_runs_are_nonempty<P>(marks: Seq<Option<P>>, k: int)
    requires
        0 <= k < runs(marks).len(),
    ensures
        runs(marks)[k].len() > 0,
    decreases marks.len(),
{
    if marks.len() > 0 {
        let m = marks.drop_last();
        let prev = runs(m);
        match marks.last() {
            None => lemma_runs_are_nonempty(m, k),
            Some(p) => {
                if marks.len() >= 2 && marks[marks.len() - 2] is Some {
                    assert(m.last() == marks[marks.len() - 2]);
                    lemma_last_run_open(m);
                    if k < prev.len() - 1 {
                        lemma_runs_are_nonempty(m, k);
                    }
                } else if k < prev.len() {
                    lemma_runs_are_nonempty(m, k);
                }
            },
        }
    }
}

/// The runs, laid end to end, are exactly the drawn points in order: no point
/// is lost, duplicated, reordered or invented.
pub proof fn lemma_runs_cover_the_drawn_points<P>(marks: Seq<Option<P>>)
    ensures
        joined(runs(marks)) == drawn(marks),
    decreases marks.len(),
{
    if marks.len() > 0 {
        let prev = runs(marks.drop_last());
        lemma_runs_cover_the_drawn_points(marks.drop_last());
        match marks.last() {
            None => {},
            Some(p) => {
                if marks.len() >= 2 && marks[marks.len() - 2] is Some {
                    assert(marks.drop_last().last() == marks[marks.len() - 2]);
                    lemma_last_run_open(marks.drop_last());
                    let upd = prev.update(prev.len() - 1, prev.last().push(p));
                    assert(upd.drop_last() =~= prev.drop_last());
                    assert(joined(prev) == joined(prev.drop_last()) + prev.last());
                    assert(joined(upd) =~= joined(prev).push(p));
                } else {
                    let pushed = prev.push(seq![p]);
                    assert(pushed.drop_last() =~= prev);
                    assert(joined(pushed) =~= joined(prev).push(p));
                }
            },
        }
    }
}

/// When the last mark is a drawn point there is a run in progress.
proof fn lemma_last_run_open<P>(marks: Seq<Option<P>>)
    requires
        marks.len() > 0,
        marks.last() is Some,
    ensures
        runs(marks).len() > 0,
    decreases marks.len(),
{
    if marks.len() >= 2 && marks[marks.len() - 2] is Some {
        assert(marks.drop_last().last() == marks[marks.len() - 2]);
        lemma_last_run_open(marks.drop_last());
    }
}

/// A line breaks exactly at the gaps: there are as many runs as drawn points
/// that start the trace or follow a gap.
pub proof fn lemma_one_run_per_start<P>(marks: Seq<Option<P>>)
    ensures
        runs(marks).len() == run_starts(marks),
    decreases marks.len(),
{
    if marks.len() > 0 {
        let m = marks.drop_last();
        lemma_one_run_per_start(m);
        if marks.last() is Some && marks.len() >= 2 && marks[marks.len() - 2] is Some {
            assert(m.last() == marks[marks.len() - 2]);
            lemma_last_run_open(m);
        }
    }
}

} // verus!
