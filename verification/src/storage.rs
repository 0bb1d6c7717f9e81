//! What the persistent store keeps of a download: its status row and, for
//! HTTP downloads, one row per segment.

pub mod sqlite;

use vstd::prelude::*;

verus! {

/// Progress state of one segment.
#[derive(Debug)]
pub enum SegmentState {
    Pending,
    Downloading,
    Completed,
    Failed { error: String, retries: u32 },
}

impl Clone for SegmentState {
    fn clone(&self) -> (r: Self)
        ensures
            r == *self,
    {
        match self {
            SegmentState::Pending => SegmentState::Pending,
            SegmentState::Downloading => SegmentState::Downloading,
            SegmentState::Completed => SegmentState::Completed,
            SegmentState::Failed { error, retries } => SegmentState::Failed {
                error: error.clone(),
                retries: *retries,
            },
        }
    }
}

/// One contiguous byte range of an HTTP download, fetched by a single
/// connection. `end` is the last byte of the range.
#[derive(Debug)]
pub struct Segment {
    pub index: usize,
    pub start: u64,
    pub end: u64,
    pub downloaded: u64,
    pub state: SegmentState,
}

impl Clone for Segment {
    fn clone(&self) -> (r: Self)
        ensures
            r == *self,
    {
        Segment {
            index: self.index,
            start: self.start,
            end: self.end,
            downloaded: self.downloaded,
            state: self.state.clone(),
        }
    }
}

impl Segment {
    /// Number of bytes in the segment's range.
    pub open spec fn spec_len(&self) -> int {
        self.end - self.start + 1
    }

    /// The range is not empty, no more is downloaded than it holds, and a
    /// completed segment holds all of it.
    pub open spec fn wf(&self) -> bool {
        &&& self.start <= self.end
        &&& self.downloaded <= self.spec_len()
        &&& (self.state is Completed ==> self.downloaded == self.spec_len())
    }

    pub open spec fn spec_is_complete(&self) -> bool {
        self.state is Completed || self.downloaded >= self.spec_len()
    }

    /// Bytes of the range that are still to come.
    pub open spec fn spec_remaining(&self) -> int {
        if self.downloaded >= self.spec_len() {
            0
        } else {
            self.spec_len() - self.downloaded
        }
    }

    /// A pending segment over `start..=end` with nothing downloaded.
    pub fn new(index: usize, start: u64, end: u64) -> (s: Segment)
        ensures
            s == (Segment { index, start, end, downloaded: 0, state: SegmentState::Pending }),
    {
        Segment { index, start, end, downloaded: 0, state: SegmentState::Pending }
    }

    /// Whether every byte of the range is there.
    #[verifier::when_used_as_spec(spec_is_complete)]
    pub fn is_complete(&self) -> (r: bool)
        ensures
            r == self.spec_is_complete(),
    {
        match self.state {
            SegmentState::Completed => true,
            _ => self.end >= self.start && self.downloaded > self.end - self.start
                || self.end < self.start && (self.downloaded as u128) + (self.start as u128) >= (
                self.end as u128) + 1,
        }
    }

    /// Bytes of the range that are still to come.
    pub fn remaining(&self) -> (r: u64)
        requires
            self.start <= self.end < u64::MAX,
        ensures
            r == self.spec_remaining(),
    {
        let span: u64 = self.end - self.start;
        if self.downloaded > span {
            0
        } else {
            span - self.downloaded + 1
        }
    }
}

/// Sum of the downloaded counts of a list of segments.
pub open spec fn downloaded_sum(segs: Seq<Segment>) -> int
    decreases segs.len(),
{
    if segs.len() == 0 {
        0
    } else {
        downloaded_sum(segs.drop_last()) + segs.last().downloaded
    }
}

/// The segments are numbered in order, each is well formed, and their
/// ranges partition `[0, total)` contiguously without overlap.
pub open spec fn segments_partition(segs: Seq<Segment>, total: int) -> bool {
    &&& forall|i: int| 0 <= i < segs.len() ==> (#[trigger] segs[i]).index == i && segs[i].wf()
    &&& forall|i: int| 0 <= i < segs.len() - 1 ==> (#[trigger] segs[i]).end + 1 == segs[i + 1].start
    &&& if total == 0 {
        segs.len() == 0
    } else {
        segs.len() > 0 && segs[0].start == 0 && segs.last().end == total - 1
    }
}

/// The first `k` segments of a partition hold no more downloaded bytes than
/// their ranges, which end where segment `k` starts.
pub proof fn lemma_prefix_sum_bound(segs: Seq<Segment>, total: int, k: int)
    requires
        segments_partition(segs, total),
        0 <= k <= segs.len(),
    ensures
        0 <= downloaded_sum(segs.take(k)),
        k == 0 ==> downloaded_sum(segs.take(k)) == 0,
        k > 0 ==> downloaded_sum(segs.take(k)) <= segs[k - 1].end + 1,
        downloaded_sum(segs.take(k)) <= total,
    decreases k,
{
    if k > 0 {
        lemma_prefix_sum_bound(segs, total, k - 1);
        assert(segs.take(k).drop_last() == segs.take(k - 1));
        assert(segs.take(k).last() == segs[k - 1]);
        assert(segs[k - 1].wf());
        if k > 1 {
            assert(segs[k - 2].end + 1 == segs[k - 2 + 1].start);
        }
        lemma_ends_bounded(segs, total, k - 1);
    }
}

/// Every segment of a partition ends before `total`.
pub proof fn lemma_ends_bounded(segs: Seq<Segment>, total: int, i: int)
    requires
        segments_partition(segs, total),
        0 <= i < segs.len(),
    ensures
        segs[i].end <= total - 1,
        segs[i].start >= i,
    decreases segs.len() - i,
{
    if i < segs.len() - 1 {
        lemma_ends_bounded(segs, total, i + 1);
        assert(segs[i].end + 1 == segs[i + 1].start);
        assert(segs[i + 1].wf());
    }
    lemma_starts_bounded(segs, total, i);
}

/// Segment `i` of a partition starts at byte `i` or later.
pub proof fn lemma_starts_bounded(segs: Seq<Segment>, total: int, i: int)
    requires
        segments_partition(segs, total),
        0 <= i < segs.len(),
    ensures
        segs[i].start >= i,
    decreases i,
{
    if i > 0 {
        lemma_starts_bounded(segs, total, i - 1);
        assert(segs[i - 1].end + 1 == segs[i - 1 + 1].start);
        assert(segs[i - 1].wf());
    }
}

/// In a partition the downloaded counts add up to at most the total size.
pub proof fn lemma_sum_bound(segs: Seq<Segment>, total: int)
    requires
        segments_partition(segs, total),
    ensures
        0 <= downloaded_sum(segs) <= total,
{
    lemma_prefix_sum_bound(segs, total, segs.len() as int);
    assert(segs.take(segs.len() as int) == segs);
}

/// Replacing one segment changes the sum by the change of its count.
pub proof fn lemma_sum_update(segs: Seq<Segment>, i: int, s: Segment)
    requires
        0 <= i < segs.len(),
    ensures
        downloaded_sum(segs.update(i, s)) == downloaded_sum(segs) - segs[i].downloaded
            + s.downloaded,
    decreases segs.len(),
{
    let u = segs.update(i, s);
    if i == segs.len() - 1 {
        assert(u.drop_last() == segs.drop_last());
    } else {
        lemma_sum_update(segs.drop_last(), i, s);
        assert(u.drop_last() == segs.drop_last().update(i, s));
    }
}

} // verus!
