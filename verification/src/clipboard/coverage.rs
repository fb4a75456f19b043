//! Which bytes of a file have been served at least once.

use vstd::prelude::*;
use vstd::set_lib::*;

verus! {

/// Most ranges that a coverage keeps before it gives up and marks itself saturated.
pub const MAX_TRACKED_RANGES: usize = 4096;

/// Whether some range of `ranges` holds the offset.
pub open spec fn holds(ranges: Seq<(u64, u64)>, offset: int) -> bool {
    exists|k: int| 0 <= k < ranges.len() && #[trigger] ranges[k].0 <= offset < ranges[k].1
}

/// The offsets that `ranges` hold.
pub open spec fn offsets(ranges: Seq<(u64, u64)>) -> Set<int> {
    Set::new(|offset: int| holds(ranges, offset))
}

/// The offsets of `set` that no offset of `set` precedes directly: one for each contiguous run.
pub open spec fn run_starts(set: Set<int>) -> Set<int> {
    Set::new(|offset: int| set.contains(offset) && !set.contains(offset - 1))
}

/// Ranges in ascending order, none empty, with a gap between every two of them.
pub open spec fn normalized(ranges: Seq<(u64, u64)>) -> bool {
    &&& forall|k: int| 0 <= k < ranges.len() ==> (#[trigger] ranges[k]).0 < ranges[k].1
    &&& forall|j: int, k: int|
        0 <= j < k < ranges.len() ==> (#[trigger] ranges[j]).1 < (#[trigger] ranges[k]).0
}

/// The summed lengths of `ranges`.
pub open spec fn total(ranges: Seq<(u64, u64)>) -> int
    decreases ranges.len(),
{
    if ranges.len() == 0 {
        0
    } else {
        total(ranges.drop_last()) + (ranges.last().1 - ranges.last().0)
    }
}

/// The offsets of the range from `low` to `high`.
pub open spec fn span(low: u64, high: u64) -> Set<int> {
    set_int_range(low as int, high as int)
}

proof fn lemma_offsets_empty(ranges: Seq<(u64, u64)>)
    requires
        ranges.len() == 0,
    ensures
        offsets(ranges) == Set::<int>::empty(),
{
    assert(offsets(ranges) =~= Set::<int>::empty());
}

proof fn lemma_offsets_push(ranges: Seq<(u64, u64)>, range: (u64, u64))
    ensures
        offsets(ranges.push(range)) == offsets(ranges).union(span(range.0, range.1)),
{
    let longer = ranges.push(range);
    assert forall|offset: int| #[trigger]
        offsets(longer).contains(offset) == offsets(ranges).union(span(range.0, range.1)).contains(
            offset,
        ) by {
        if holds(ranges, offset) {
            let k = choose|k: int|
                0 <= k < ranges.len() && #[trigger] ranges[k].0 <= offset < ranges[k].1;
            assert(longer[k] == ranges[k]);
        }
        if range.0 <= offset < range.1 {
            assert(longer[ranges.len() as int] == range);
        }
        if holds(longer, offset) {
            let k = choose|k: int|
                0 <= k < longer.len() && #[trigger] longer[k].0 <= offset < longer[k].1;
            if k < ranges.len() {
                assert(longer[k] == ranges[k]);
            }
        }
    }
    assert(offsets(longer) =~= offsets(ranges).union(span(range.0, range.1)));
}

proof fn lemma_offsets_skip(ranges: Seq<(u64, u64)>, from: int)
    requires
        0 <= from < ranges.len(),
    ensures
        offsets(ranges.skip(from)) == span(ranges[from].0, ranges[from].1).union(
            offsets(ranges.skip(from + 1)),
        ),
{
    let rest = ranges.skip(from);
    let tail = ranges.skip(from + 1);
    let head = span(ranges[from].0, ranges[from].1);
    assert forall|offset: int| #[trigger]
        offsets(rest).contains(offset) == head.union(offsets(tail)).contains(offset) by {
        if holds(rest, offset) {
            let k = choose|k: int| 0 <= k < rest.len() && #[trigger] rest[k].0 <= offset < rest[k].1;
            if k > 0 {
                assert(tail[k - 1] == rest[k]);
            }
        }
        if holds(tail, offset) {
            let k = choose|k: int| 0 <= k < tail.len() && #[trigger] tail[k].0 <= offset < tail[k].1;
            assert(rest[k + 1] == tail[k]);
        }
        if ranges[from].0 <= offset < ranges[from].1 {
            assert(rest[0] == ranges[from]);
        }
    }
    assert(offsets(rest) =~= head.union(offsets(tail)));
}

/// The summed lengths of normalized ranges fit below the end of the last one.
proof fn lemma_total_bound(ranges: Seq<(u64, u64)>)
    requires
        normalized(ranges),
    ensures
        0 <= total(ranges),
        ranges.len() > 0 ==> total(ranges) <= ranges.last().1,
    decreases ranges.len(),
{
    if ranges.len() > 0 {
        let rest = ranges.drop_last();
        assert forall|j: int, k: int| 0 <= j < k < rest.len() implies (#[trigger] rest[j]).1 < (
        #[trigger] rest[k]).0 by {
            assert(rest[j] == ranges[j] && rest[k] == ranges[k]);
        }
        assert forall|k: int| 0 <= k < rest.len() implies (#[trigger] rest[k]).0 < rest[k].1 by {
            assert(rest[k] == ranges[k]);
        }
        lemma_total_bound(rest);
        if rest.len() > 0 {
            assert(rest.last() == ranges[ranges.len() - 2]);
        }
    }
}

proof fn lemma_normalized_drop_last(ranges: Seq<(u64, u64)>)
    requires
        normalized(ranges),
        ranges.len() > 0,
    ensures
        normalized(ranges.drop_last()),
{
    let rest = ranges.drop_last();
    assert forall|j: int, k: int| 0 <= j < k < rest.len() implies (#[trigger] rest[j]).1 < (
    #[trigger] rest[k]).0 by {
        assert(rest[j] == ranges[j] && rest[k] == ranges[k]);
    }
    assert forall|k: int| 0 <= k < rest.len() implies (#[trigger] rest[k]).0 < rest[k].1 by {
        assert(rest[k] == ranges[k]);
    }
}

/// The summed lengths of normalized ranges count the offsets that they hold.
pub proof fn lemma_total_counts_offsets(ranges: Seq<(u64, u64)>)
    requires
        normalized(ranges),
    ensures
        offsets(ranges).finite(),
        offsets(ranges).len() == total(ranges),
    decreases ranges.len(),
{
    if ranges.len() == 0 {
        assert(offsets(ranges) =~= Set::<int>::empty());
    } else {
        let rest = ranges.drop_last();
        let last = ranges.last();
        lemma_normalized_drop_last(ranges);
        lemma_total_counts_offsets(rest);
        let span = span(last.0, last.1);
        lemma_int_range(last.0 as int, last.1 as int);
        assert(ranges =~= rest.push(last));
        lemma_offsets_push(rest, last);
        assert(offsets(rest).disjoint(span)) by {
            assert forall|offset: int| offsets(rest).contains(offset) implies !span.contains(
                offset,
            ) by {
                let k = choose|k: int|
                    0 <= k < rest.len() && #[trigger] rest[k].0 <= offset < rest[k].1;
                assert(ranges[k] == rest[k]);
                assert(ranges[k].1 < ranges[ranges.len() - 1].0);
            }
        }
        lemma_set_disjoint_lens(offsets(rest), span);
    }
}

/// Normalized ranges are as many as the contiguous runs of the offsets that they hold.
pub proof fn lemma_ranges_are_runs(ranges: Seq<(u64, u64)>)
    requires
        normalized(ranges),
    ensures
        run_starts(offsets(ranges)).finite(),
        run_starts(offsets(ranges)).len() == ranges.len(),
{
    let starts = ranges.map_values(|range: (u64, u64)| range.0 as int);
    assert(starts.no_duplicates()) by {
        assert forall|j: int, k: int| 0 <= j < starts.len() && 0 <= k < starts.len() && j != k implies
        starts[j] != starts[k] by {
            assert(starts[j] == ranges[j].0 && starts[k] == ranges[k].0);
            if j < k {
                assert(ranges[j].1 < ranges[k].0);
            } else {
                assert(ranges[k].1 < ranges[j].0);
            }
        }
    }
    assert forall|offset: int| run_starts(offsets(ranges)).contains(offset) <==> starts.to_set().contains(
        offset,
    ) by {
        if run_starts(offsets(ranges)).contains(offset) {
            let k = choose|k: int|
                0 <= k < ranges.len() && #[trigger] ranges[k].0 <= offset < ranges[k].1;
            if ranges[k].0 < offset {
                assert(ranges[k].0 <= offset - 1 < ranges[k].1);
                assert(holds(ranges, offset - 1));
            }
            assert(starts[k] == offset);
        }
        if starts.to_set().contains(offset) {
            let k = choose|k: int| 0 <= k < starts.len() && starts[k] == offset;
            assert(ranges[k].0 == offset);
            assert(ranges[k].0 <= offset < ranges[k].1);
            assert(holds(ranges, offset));
            if holds(ranges, offset - 1) {
                let j = choose|j: int|
                    0 <= j < ranges.len() && #[trigger] ranges[j].0 <= offset - 1 < ranges[j].1;
                if j < k {
                    assert(ranges[j].1 < ranges[k].0);
                } else if k < j {
                    assert(ranges[k].1 < ranges[j].0);
                }
            }
        }
    }
    assert(run_starts(offsets(ranges)) =~= starts.to_set());
    starts.unique_seq_to_set();
    vstd::seq_lib::seq_to_set_is_finite(starts);
}

/// What a coverage record says: the served offsets that it still holds, their number, and
/// whether it has given up counting.
#[verifier::ext_equal]
pub struct CoverageView {
    pub covered: Set<int>,
    pub unique_bytes: u64,
    pub saturated: bool,
}

impl CoverageView {
    /// The record of a file of which nothing was served.
    pub open spec fn nothing() -> CoverageView {
        CoverageView { covered: Set::empty(), unique_bytes: 0, saturated: false }
    }

    /// The record after `length` bytes from `start` on were served.
    ///
    /// A range that ends beyond the largest offset, and one that would split the served bytes
    /// into more than `MAX_TRACKED_RANGES` runs, saturate the record: its byte count then stays
    /// as it is.
    pub open spec fn noted(self, start: u64, length: u64) -> CoverageView {
        let reached = self.covered.union(span(start, (start + length) as u64));
        if self.saturated || length == 0 {
            self
        } else if start + length > u64::MAX {
            CoverageView { saturated: true, ..self }
        } else if run_starts(reached).len() > MAX_TRACKED_RANGES {
            CoverageView { covered: Set::empty(), saturated: true, ..self }
        } else {
            CoverageView { covered: reached, unique_bytes: reached.len() as u64, saturated: false }
        }
    }

    /// The offsets are few enough runs, and unless the record is saturated the byte count is
    /// their number.
    pub open spec fn consistent(self) -> bool {
        &&& self.covered.subset_of(span(0, u64::MAX))
        &&& self.covered.finite()
        &&& run_starts(self.covered).finite()
        &&& run_starts(self.covered).len() <= MAX_TRACKED_RANGES
        &&& !self.saturated ==> self.covered.len() == self.unique_bytes
    }

    /// A record that counts each served offset once still does so after a range is served.
    pub proof fn lemma_noted_consistent(self, start: u64, length: u64)
        requires
            self.consistent(),
        ensures
            self.noted(start, length).consistent(),
    {
        let noted = self.noted(start, length);
        let all = span(0, u64::MAX);
        vstd::set_lib::lemma_int_range(0, u64::MAX as int);
        if start + length <= u64::MAX {
            let reached = self.covered.union(span(start, (start + length) as u64));
            vstd::set_lib::lemma_int_range(start as int, start + length);
            vstd::set_lib::lemma_len_subset(reached, all);
            assert(run_starts(reached).subset_of(reached));
            vstd::set_lib::lemma_len_subset(run_starts(reached), reached);
        }
        assert(run_starts(Set::empty()) =~= Set::empty());
    }

    /// Serving a range of which every byte was served before changes nothing.
    pub proof fn lemma_served_again(self, start: u64, length: u64)
        requires
            self.consistent(),
            start + length <= u64::MAX,
            span(start, (start + length) as u64).subset_of(self.covered),
        ensures
            self.noted(start, length) == self,
    {
        assert(self.covered.union(span(start, (start + length) as u64)) =~= self.covered);
    }

    /// The order in which two ranges are served does not matter for the record, as long as
    /// neither order saturates it.
    pub proof fn lemma_order_is_irrelevant(
        self,
        first: (u64, u64),
        second: (u64, u64),
    )
        requires
            !self.noted(first.0, first.1).noted(second.0, second.1).saturated,
            !self.noted(second.0, second.1).noted(first.0, first.1).saturated,
        ensures
            self.noted(first.0, first.1).noted(second.0, second.1) == self.noted(
                second.0,
                second.1,
            ).noted(first.0, first.1),
    {
        let one = span(first.0, (first.0 + first.1) as u64);
        let two = span(second.0, (second.0 + second.1) as u64);
        assert(self.covered.union(one).union(two) =~= self.covered.union(two).union(one));
    }
}

/// Bounded record of the served ranges of one file.
#[derive(Debug)]
pub struct RangeCoverage {
    ranges: Vec<(u64, u64)>,
    unique_bytes: u64,
    saturated: bool,
}

impl View for RangeCoverage {
    type V = CoverageView;

    closed spec fn view(&self) -> CoverageView {
        CoverageView {
            covered: offsets(self.ranges@),
            unique_bytes: self.unique_bytes,
            saturated: self.saturated,
        }
    }
}

impl RangeCoverage {
    /// The ranges are normalized and few, and unless the record is saturated the byte count is
    /// the number of served offsets.
    pub closed spec fn wf(&self) -> bool {
        &&& normalized(self.ranges@)
        &&& self.ranges@.len() <= MAX_TRACKED_RANGES
        &&& !self.saturated ==> self.unique_bytes == total(self.ranges@)
    }

    /// A record counts each served offset once.
    pub proof fn lemma_consistent(&self)
        requires
            self.wf(),
        ensures
            self@.consistent(),
    {
        lemma_total_counts_offsets(self.ranges@);
        lemma_ranges_are_runs(self.ranges@);
    }

    /// The record of a file of which nothing was served.
    pub fn new() -> (coverage: Self)
        ensures
            coverage.wf(),
            coverage@ == CoverageView::nothing(),
    {
        let coverage = RangeCoverage { ranges: Vec::new(), unique_bytes: 0, saturated: false };
        proof {
            lemma_offsets_empty(coverage.ranges@);
        }
        coverage
    }

    /// Records that `length` bytes from `start` on were served.
    pub fn note(&mut self, start: u64, length: u64)
        requires
            old(self).wf(),
        ensures
            final(self).wf(),
            final(self)@ == old(self)@.noted(start, length),
    {
        if self.saturated || length == 0 {
            return ;
        }
        if length > u64::MAX - start {
            self.saturated = true;
            return ;
        }
        let end: u64 = start + length;
        let merged = Self::merge(&self.ranges, start, end);
        proof {
            lemma_total_counts_offsets(merged@);
            lemma_ranges_are_runs(merged@);
        }
        if merged.len() > MAX_TRACKED_RANGES {
            self.saturated = true;
            self.ranges = Vec::new();
            proof {
                lemma_offsets_empty(self.ranges@);
            }
            return ;
        }
        self.unique_bytes = Self::sum(&merged);
        self.ranges = merged;
    }

    /// The normalized ranges that hold what `ranges` and the bytes from `start` to `end` hold.
    fn merge(ranges: &Vec<(u64, u64)>, start: u64, end: u64) -> (merged: Vec<(u64, u64)>)
        requires
            normalized(ranges@),
            start < end,
        ensures
            normalized(merged@),
            offsets(merged@) == offsets(ranges@).union(span(start, end)),
    {
        let mut merged: Vec<(u64, u64)> = Vec::new();
        let mut low: u64 = start;
        let mut high: u64 = end;
        let mut placed: bool = false;
        let mut index: usize = 0;
        let ghost reached = offsets(ranges@).union(span(start, end));
        proof {
            lemma_offsets_empty(merged@);
            assert(ranges@.skip(0) =~= ranges@);
            assert(reached =~= offsets(merged@).union(span(low, high)).union(offsets(ranges@)));
        }
        while index < ranges.len()
            invariant
                index <= ranges@.len(),
                normalized(ranges@),
                normalized(merged@),
                low < high,
                !placed ==> forall|k: int| 0 <= k < merged@.len() ==> (#[trigger] merged@[k]).1 < low,
                forall|k: int, j: int|
                    0 <= k < merged@.len() && index <= j < ranges@.len() ==> (#[trigger] merged@[k]).1
                        < (#[trigger] ranges@[j]).0,
                reached == offsets(merged@).union(
                    if placed {
                        Set::empty()
                    } else {
                        span(low, high)
                    },
                ).union(offsets(ranges@.skip(index as int))),
            decreases ranges@.len() - index,
        {
            let range: (u64, u64) = ranges[index];
            let ghost before = merged@;
            let ghost old_span = span(low, high);
            let ghost tail = ranges@.skip(index + 1);
            proof {
                lemma_offsets_skip(ranges@, index as int);
            }
            if placed {
                merged.push(range);
                proof {
                    lemma_offsets_push(before, range);
                    assert(reached =~= offsets(merged@).union(Set::empty()).union(offsets(tail)));
                }
            } else if range.1 < low {
                merged.push(range);
                proof {
                    lemma_offsets_push(before, range);
                    assert(reached =~= offsets(merged@).union(old_span).union(offsets(tail)));
                }
            } else if range.0 > high {
                merged.push((low, high));
                merged.push(range);
                placed = true;
                proof {
                    lemma_offsets_push(before, (low, high));
                    lemma_offsets_push(before.push((low, high)), range);
                    assert(reached =~= offsets(merged@).union(Set::empty()).union(offsets(tail)));
                }
            } else {
                if range.0 < low {
                    low = range.0;
                }
                if range.1 > high {
                    high = range.1;
                }
                proof {
                    assert(span(low, high) =~= old_span.union(span(range.0, range.1)));
                    assert(reached =~= offsets(merged@).union(span(low, high)).union(offsets(tail)));
                }
            }
            index += 1;
        }
        proof {
            lemma_offsets_empty(ranges@.skip(index as int));
        }
        if !placed {
            let ghost before = merged@;
            merged.push((low, high));
            proof {
                lemma_offsets_push(before, (low, high));
            }
        }
        assert(offsets(merged@) =~= reached);
        merged
    }

    fn sum(ranges: &Vec<(u64, u64)>) -> (sum: u64)
        requires
            normalized(ranges@),
        ensures
            sum == total(ranges@),
    {
        let mut sum: u64 = 0;
        let mut index: usize = 0;
        while index < ranges.len()
            invariant
                index <= ranges@.len(),
                normalized(ranges@),
                sum == total(ranges@.take(index as int)),
            decreases ranges@.len() - index,
        {
            proof {
                let longer = ranges@.take(index + 1);
                assert(longer.drop_last() =~= ranges@.take(index as int));
                lemma_total_bound(longer);
            }
            sum = sum + (ranges[index].1 - ranges[index].0);
            index += 1;
        }
        assert(ranges@.take(index as int) =~= ranges@);
        sum
    }

    /// How many ranges the record holds: one for each contiguous run of served offsets.
    pub fn range_count(&self) -> (count: usize)
        requires
            self.wf(),
        ensures
            count == run_starts(self@.covered).len(),
            count <= MAX_TRACKED_RANGES,
    {
        proof {
            lemma_ranges_are_runs(self.ranges@);
        }
        self.ranges.len()
    }

    pub fn unique_bytes(&self) -> (bytes: u64)
        ensures
            bytes == self@.unique_bytes,
    {
        self.unique_bytes
    }

    pub fn saturated(&self) -> (saturated: bool)
        ensures
            saturated == self@.saturated,
    {
        self.saturated
    }
}

} // verus!
