//! The line drawn above the waterfall, where it has gaps.

use vstd::prelude::*;

verus! {

/// Whether the columns from `start` up to `end` are a run: all of them have a
/// value, and the columns beside it have none.
pub open spec fn is_run(present: Seq<bool>, start: int, end: int) -> bool {
    &&& 0 <= start < end <= present.len()
    &&& forall|i: int| start <= i < end ==> #[trigger] present[i]
    &&& start == 0 || !present[start - 1]
    &&& end == present.len() || !present[end]
}

/// Whether a list of runs holds this one.
pub open spec fn holds_run(runs: Seq<(usize, usize)>, start: int, end: int) -> bool {
    exists|k: int|
        0 <= k < runs.len() && (#[trigger] runs[k]).0 == start && runs[k].1 == end
}

/// The runs of a line that are long enough to draw, left to right: every run
/// of two columns or more, and nothing else. A gap is not joined across, since
/// that would draw a signal nobody received.
pub fn line_runs(present: &Vec<bool>) -> (r: Vec<(usize, usize)>)
    ensures
        forall|k: int|
            0 <= k < r@.len() ==> is_run(present@, (#[trigger] r@[k]).0 as int, r@[k].1 as int)
                && r@[k].1 - r@[k].0 >= 2,
        forall|start: int, end: int|
            #[trigger] is_run(present@, start, end) && end - start >= 2 ==> holds_run(
                r@,
                start,
                end,
            ),
        forall|j: int, k: int|
            0 <= j < k < r@.len() ==> (#[trigger] r@[j]).1 <= (#[trigger] r@[k]).0,
{
    let mut runs: Vec<(usize, usize)> = Vec::new();
    let len: usize = present.len();
    let mut start: usize = 0;
    let mut i: usize = 0;
    while i < len
        invariant
            len == present@.len(),
            start <= i <= len,
            forall|j: int| start <= j < i ==> #[trigger] present@[j],
            start == 0 || !present@[start - 1],
            forall|k: int|
                0 <= k < runs@.len() ==> is_run(
                    present@,
                    (#[trigger] runs@[k]).0 as int,
                    runs@[k].1 as int,
                ) && runs@[k].1 - runs@[k].0 >= 2 && runs@[k].1 <= start,
            forall|s: int, e: int|
                #[trigger] is_run(present@, s, e) && e - s >= 2 && e <= start ==> holds_run(
                    runs@,
                    s,
                    e,
                ),
            forall|j: int, k: int|
                0 <= j < k < runs@.len() ==> (#[trigger] runs@[j]).1 <= (#[trigger] runs@[k]).0,
        decreases len - i,
    {
        if !present[i] {
            let ghost before = runs@;
            if i - start >= 2 {
                runs.push((start, i));
            }
            proof {
                assert forall|s: int, e: int|
                    #[trigger] is_run(present@, s, e) && e - s >= 2 && e <= i + 1 implies holds_run(
                    runs@,
                    s,
                    e,
                ) by {
                    if e <= start {
                        let k = choose|k: int|
                            0 <= k < before.len() && (#[trigger] before[k]).0 == s && before[k].1
                                == e;
                        assert(runs@[k] == before[k]);
                    } else {
                        // A run that ends after `start` and before the gap is
                        // the one that began there.
                        if e == i + 1 {
                            assert(present@[i as int]);
                        }
                        if s < start {
                            assert(present@[start - 1]);
                        }
                        if e < i {
                            assert(present@[e]);
                        }
                        if s > start {
                            assert(present@[s - 1]);
                        }
                        assert(runs@.last().0 == s && runs@.last().1 == e);
                        assert(runs@[runs@.len() - 1] == runs@.last());
                    }
                }
            }
            start = i + 1;
        }
        i += 1;
    }
    let ghost before = runs@;
    if len - start >= 2 {
        runs.push((start, len));
    }
    proof {
        assert forall|s: int, e: int|
            #[trigger] is_run(present@, s, e) && e - s >= 2 implies holds_run(runs@, s, e) by {
            if e <= start {
                let k = choose|k: int|
                    0 <= k < before.len() && (#[trigger] before[k]).0 == s && before[k].1 == e;
                assert(runs@[k] == before[k]);
            } else {
                if s < start {
                    assert(present@[start - 1]);
                }
                if e < len {
                    assert(present@[e]);
                }
                if s > start {
                    assert(present@[s - 1]);
                }
                assert(runs@[runs@.len() - 1].0 == s);
            }
        }
    }
    runs
}

/// A run has no gap in it and cannot be made longer: its columns have values,
/// the one before it and the one behind it have none. A line without a gap is
/// one run.
pub proof fn a_run_reaches_from_gap_to_gap(present: Seq<bool>, start: int, end: int, i: int)
    ensures
        is_run(present, start, end) ==> 0 <= start < end <= present.len(),
        is_run(present, start, end) && start <= i < end ==> present[i],
        is_run(present, start, end) && start > 0 ==> !present[start - 1],
        is_run(present, start, end) && end < present.len() ==> !present[end],
        present.len() > 0 && (forall|j: int| 0 <= j < present.len() ==> #[trigger] present[j])
            ==> is_run(present, 0, present.len() as int),
{
}

/// Every column with a value lies in one run.
pub proof fn every_value_lies_in_a_run(present: Seq<bool>, i: int) -> (r: (int, int))
    requires
        0 <= i < present.len(),
        present[i],
    ensures
        is_run(present, r.0, r.1),
        r.0 <= i < r.1,
{
    (run_start(present, i, i), run_end(present, i, i + 1))
}

/// Where the run around a column begins, of which the columns from `at` on are
/// known.
proof fn run_start(present: Seq<bool>, i: int, at: int) -> (r: int)
    requires
        0 <= at <= i < present.len(),
        forall|j: int| at <= j <= i ==> #[trigger] present[j],
    ensures
        0 <= r <= i,
        forall|j: int| r <= j <= i ==> #[trigger] present[j],
        r == 0 || !present[r - 1],
    decreases at,
{
    if at == 0 || !present[at - 1] {
        at
    } else {
        run_start(present, i, at - 1)
    }
}

/// Where the run around a column ends, of which the columns up to `at` are
/// known.
proof fn run_end(present: Seq<bool>, i: int, at: int) -> (r: int)
    requires
        0 <= i < at <= present.len(),
        forall|j: int| i <= j < at ==> #[trigger] present[j],
    ensures
        i < r <= present.len(),
        forall|j: int| i <= j < r ==> #[trigger] present[j],
        r == present.len() || !present[r],
    decreases present.len() - at,
{
    if at == present.len() || !present[at] {
        at
    } else {
        run_end(present, i, at + 1)
    }
}

} // verus!
