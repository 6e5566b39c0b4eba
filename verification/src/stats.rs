//! How often each filter was hit in a batch of matches.

use vstd::prelude::*;
use crate::map::{match_views, FilterMatch, FilterMatchView};

verus! {

/// How often `f` stands in `s`.
pub open spec fn occurrences(s: Seq<u8>, f: u8) -> nat
    decreases s.len(),
{
    if s.len() == 0 {
        0
    } else {
        occurrences(s.drop_last(), f) + if s.last() == f {
            1nat
        } else {
            0nat
        }
    }
}

/// How often the filter index `f` stands in the given matches.
pub open spec fn hit_count(entries: Seq<FilterMatchView>, f: u8) -> nat
    decreases entries.len(),
{
    if entries.len() == 0 {
        0
    } else {
        hit_count(entries.drop_last(), f) + occurrences(entries.last().filters, f)
    }
}

/// A count as a `u64`: the count itself, or the largest `u64` where it is
/// larger.
pub open spec fn capped(n: nat) -> u64 {
    if n > u64::MAX {
        u64::MAX
    } else {
        n as u64
    }
}

/// The hit counts of the filter indices below `n`, in ascending order of the
/// index, without those that were not hit.
pub open spec fn stats_upto(entries: Seq<FilterMatchView>, n: nat) -> Seq<(u8, u64)>
    decreases n,
{
    if n == 0 {
        Seq::empty()
    } else {
        let f = (n - 1) as u8;
        let before = stats_upto(entries, (n - 1) as nat);
        if hit_count(entries, f) > 0 {
            before.push((f, capped(hit_count(entries, f))))
        } else {
            before
        }
    }
}

/// The hit counts of all filter indices that were hit, in ascending order
/// of the index.
pub open spec fn stats_of(entries: Seq<FilterMatchView>) -> Seq<(u8, u64)> {
    stats_upto(entries, 256)
}

/// For each filter index that was hit in a run, how often it was hit.
#[derive(Debug)]
pub struct FilterStats(Vec<(u8, u64)>);

impl View for FilterStats {
    type V = Seq<(u8, u64)>;

    closed spec fn view(&self) -> Seq<(u8, u64)> {
        self.0@
    }
}

impl FilterStats {
    pub fn new(v: Vec<(u8, u64)>) -> (stats: FilterStats)
        ensures
            stats@ == v@,
    {
        FilterStats(v)
    }

    /// The pairs of filter index and hit count.
    pub fn entries(&self) -> (v: &Vec<(u8, u64)>)
        ensures
            v@ == self@,
    {
        &self.0
    }

    /// Counts the hits of each filter index in the given matches.
    pub fn count(found: &[FilterMatch]) -> (stats: FilterStats)
        ensures
            stats@ == stats_of(match_views(found@)),
    {
        let ghost views = match_views(found@);
        let mut counters: Vec<u64> = Vec::new();
        while counters.len() < 256
            invariant
                counters.len() <= 256,
                forall|f: int| 0 <= f < counters.len() ==> counters@[f] == 0,
            decreases 256 - counters.len(),
        {
            counters.push(0);
        }
        let mut i: usize = 0;
        while i < found.len()
            invariant
                i <= found.len(),
                views == match_views(found@),
                counters.len() == 256,
                forall|f: int|
                    0 <= f < 256 ==> counters@[f] == capped(hit_count(views.take(i as int), f as u8)),
            decreases found.len() - i,
        {
            let filters = &found[i].filters;
            let ghost seen = views.take(i as int);
            let mut j: usize = 0;
            while j < filters.len()
                invariant
                    j <= filters.len(),
                    counters.len() == 256,
                    forall|f: int|
                        0 <= f < 256 ==> counters@[f] == capped(
                            hit_count(seen, f as u8) + occurrences(
                                filters@.take(j as int),
                                f as u8,
                            ),
                        ),
                decreases filters.len() - j,
            {
                proof {
                    assert(filters@.take(j + 1).drop_last() == filters@.take(j as int));
                }
                let f = filters[j] as usize;
                let c = counters[f];
                if c < u64::MAX {
                    counters.set(f, c + 1);
                }
                j = j + 1;
            }
            proof {
                assert(filters@.take(filters@.len() as int) == filters@);
                assert(views.take(i + 1).drop_last() == seen);
                assert(views.take(i + 1).last().filters == filters@);
            }
            i = i + 1;
        }
        proof {
            assert(views.take(views.len() as int) == views);
        }
        let mut out: Vec<(u8, u64)> = Vec::new();
        let mut n: usize = 0;
        while n < 256
            invariant
                n <= 256,
                counters.len() == 256,
                forall|f: int| 0 <= f < 256 ==> counters@[f] == capped(hit_count(views, f as u8)),
                out@ == stats_upto(views, n as nat),
            decreases 256 - n,
        {
            let c = counters[n];
            if c > 0 {
                out.push((n as u8, c));
            }
            n = n + 1;
        }
        FilterStats(out)
    }
}

} // verus!
