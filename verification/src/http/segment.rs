//! Segmented downloads: a file is split into byte ranges that are fetched
//! in parallel. This module decides; the caller performs the requests and
//! the writes and reports back what happened.

use crate::error::{EngineError, EngineErrorView, NetworkErrorKind};
use crate::storage::{
    downloaded_sum, lemma_ends_bounded, lemma_prefix_sum_bound, lemma_sum_bound, lemma_sum_update,
    segments_partition, Segment, SegmentState,
};
use crate::text::{decimal, decimal_string, join2, join3, owned};
use crate::types::{clone_opt, eta, spec_eta, DownloadProgress};
use vstd::prelude::*;

verus! {

/// Default floor on the size of a segment (1 MiB).
pub const MIN_SEGMENT_SIZE: u64 = 1024 * 1024;

/// Default number of connections per download.
pub const DEFAULT_CONNECTIONS: usize = 16;

/// Least time between two progress reports of one download, in milliseconds.
pub const PROGRESS_INTERVAL_MS: u64 = 250;

/// Length of the window over which the speed is sampled, in milliseconds.
pub const SPEED_WINDOW_MS: u64 = 500;

pub open spec fn max_int(a: int, b: int) -> int {
    if a >= b {
        a
    } else {
        b
    }
}

pub open spec fn min_int(a: int, b: int) -> int {
    if a <= b {
        a
    } else {
        b
    }
}

/// Number of segments for a file of `total` bytes:
/// `max(1, min(max_connections, max(1, total / min_segment_size)))`.
/// A floor of zero bounds nothing, so that every byte may be a segment.
pub open spec fn spec_segment_count(total: int, max_connections: int, min_segment_size: int) -> int {
    if total == 0 {
        1
    } else {
        let by_size = if min_segment_size == 0 {
            total
        } else {
            total / min_segment_size
        };
        max_int(1, min_int(max_connections, max_int(1, by_size)))
    }
}

/// The count is at least 1, at most `max_connections` where that is not 0,
/// and no segment is empty.
pub proof fn lemma_segment_count_bounds(total: int, max_connections: int, min_segment_size: int)
    requires
        total >= 0,
        max_connections >= 0,
        min_segment_size >= 0,
    ensures
        1 <= spec_segment_count(total, max_connections, min_segment_size),
        spec_segment_count(total, max_connections, min_segment_size) <= max_int(1, max_connections),
        total > 0 ==> spec_segment_count(total, max_connections, min_segment_size) <= total,
{
    if total > 0 && min_segment_size > 0 {
        assert(total / min_segment_size <= total) by (nonlinear_arith)
            requires
                total > 0,
                min_segment_size > 0,
        ;
    }
}

/// Number of segments to split a download into.
pub fn calculate_segment_count(total_size: u64, max_connections: usize, min_segment_size: u64) -> (n:
    usize)
    ensures
        n == spec_segment_count(total_size as int, max_connections as int, min_segment_size as int),
        n >= 1,
{
    if total_size == 0 {
        return 1;
    }
    let by_size: u64 = if min_segment_size == 0 {
        total_size
    } else {
        total_size / min_segment_size
    };
    let floor: u64 = if by_size < 1 {
        1
    } else {
        by_size
    };
    let capped: usize = if (max_connections as u64) <= floor {
        max_connections
    } else {
        floor as usize
    };
    if capped < 1 {
        1
    } else {
        capped
    }
}

/// Segment `i` of `n` over a file of `total` bytes: spans of `total / n`
/// bytes, the last one taking what is left.
pub open spec fn planned_segment(total: int, n: int, i: int) -> Segment {
    let size = total / n;
    Segment {
        index: i as usize,
        start: (i * size) as u64,
        end: (if i == n - 1 {
            total - 1
        } else {
            (i + 1) * size - 1
        }) as u64,
        downloaded: 0,
        state: SegmentState::Pending,
    }
}

/// The segments of a fresh download: none for an empty file.
pub open spec fn planned_segments(total: int, n: int) -> Seq<Segment> {
    if total == 0 {
        Seq::empty()
    } else {
        Seq::new(n as nat, |i: int| planned_segment(total, n, i))
    }
}

pub proof fn lemma_planned_bounds(total: int, n: int, i: int)
    requires
        1 <= n <= total,
        0 <= i < n,
    ensures
        total / n >= 1,
        0 <= i * (total / n),
        (i + 1) * (total / n) <= total,
        i * (total / n) + (total / n) == (i + 1) * (total / n),
        i <= i * (total / n),
{
    let size = total / n;
    assert(size >= 1) by (nonlinear_arith)
        requires
            1 <= n <= total,
            size == total / n,
    ;
    assert(n * size <= total) by (nonlinear_arith)
        requires
            1 <= n,
            0 <= total,
            size == total / n,
    ;
    assert((i + 1) * size <= n * size) by (nonlinear_arith)
        requires
            i + 1 <= n,
            size >= 0,
    ;
    assert(0 <= i * size && i <= i * size) by (nonlinear_arith)
        requires
            0 <= i,
            size >= 1,
    ;
    assert(i * size + size == (i + 1) * size) by (nonlinear_arith);
}

/// The planned segments partition the file.
pub proof fn lemma_planned_partition(total: int, n: int)
    requires
        0 <= total <= u64::MAX,
        total > 0 ==> 1 <= n <= total && n <= usize::MAX,
    ensures
        segments_partition(planned_segments(total, n), total),
        downloaded_sum(planned_segments(total, n)) == 0,
{
    let segs = planned_segments(total, n);
    if total > 0 {
        assert forall|i: int| 0 <= i < segs.len() implies (#[trigger] segs[i]).index == i
            && segs[i].wf() by {
            lemma_planned_bounds(total, n, i);
        }
        assert forall|i: int| 0 <= i < segs.len() - 1 implies (#[trigger] segs[i]).end + 1
            == segs[i + 1].start by {
            lemma_planned_bounds(total, n, i);
            lemma_planned_bounds(total, n, i + 1);
        }
        lemma_planned_bounds(total, n, 0);
        lemma_planned_bounds(total, n, n - 1);
        assert(segs[0].start == 0);
        assert(segs.last().end == total - 1);
    }
    lemma_zero_sum(segs);
}

pub proof fn lemma_zero_sum(segs: Seq<Segment>)
    requires
        forall|i: int| 0 <= i < segs.len() ==> (#[trigger] segs[i]).downloaded == 0,
    ensures
        downloaded_sum(segs) == 0,
    decreases segs.len(),
{
    if segs.len() > 0 {
        lemma_zero_sum(segs.drop_last());
    }
}

/// One segment that still has bytes to fetch.
#[derive(Clone, Copy, Debug, PartialEq, Eq, Structural)]
pub struct SegmentJob {
    pub index: usize,
    pub start: u64,
    pub end: u64,
    pub downloaded: u64,
}

pub open spec fn job_of(s: Segment) -> SegmentJob {
    SegmentJob { index: s.index, start: s.start, end: s.end, downloaded: s.downloaded }
}

/// The jobs of the segments that are not complete, in order.
pub open spec fn spec_pending_jobs(segs: Seq<Segment>) -> Seq<SegmentJob>
    decreases segs.len(),
{
    if segs.len() == 0 {
        Seq::empty()
    } else if segs.last().spec_is_complete() {
        spec_pending_jobs(segs.drop_last())
    } else {
        spec_pending_jobs(segs.drop_last()).push(job_of(segs.last()))
    }
}

/// What to send for one segment.
#[derive(Debug)]
pub enum SegmentRequest {
    /// No such segment, or the download is paused: send nothing.
    Skip,
    /// Every byte of the segment is there already.
    AlreadyComplete,
    /// Send a `GET`; the body is written from byte `resume_start` of the
    /// file on.
    Fetch { resume_start: u64, range: Option<String>, if_range: Option<String> },
}

/// The `Range` header value for the bytes `first..=last`.
pub open spec fn range_header(first: u64, last: u64) -> Seq<char> {
    "bytes="@ + decimal(first as nat) + "-"@ + decimal(last as nat)
}

pub fn format_range(first: u64, last: u64) -> (r: String)
    ensures
        r@ == range_header(first, last),
{
    let a = decimal_string(first);
    let b = decimal_string(last);
    let head = join3("bytes=", a.as_str(), "-");
    join2(head.as_str(), b.as_str())
}

/// Whether the answer to a segment's request may be written to the file:
/// `206` to a ranged request, `200` only where the body starts at byte 0.
pub open spec fn status_accepted(status: u16, ranged: bool, resume_start: u64) -> bool {
    (status == 206 && ranged) || (status == 200 && resume_start == 0)
}

/// Checks the status of the answer to a segment's request. A `200` to a
/// request that resumes past byte 0 means that the body changed: the saved
/// bytes are invalid. Every refusal is a network error tagged with the
/// status.
pub fn check_status(status: u16, ranged: bool, resume_start: u64) -> (r: Result<(), EngineError>)
    ensures
        r is Ok <==> status_accepted(status, ranged, resume_start),
        r matches Err(e) ==> e@ == (EngineErrorView::Network {
            kind: NetworkErrorKind::HttpStatus(status),
            message: (if status == 200 {
                "resume invalidated, server sent the full body"@
            } else {
                "unexpected response to segment request"@
            }) + ": HTTP "@ + decimal(status as nat),
        }),
{
    if (status == 206 && ranged) || (status == 200 && resume_start == 0) {
        Ok(())
    } else if status == 200 {
        Err(EngineError::http_status(status, "resume invalidated, server sent the full body"))
    } else {
        Err(EngineError::http_status(status, "unexpected response to segment request"))
    }
}

/// How the part file of a download is had.
#[derive(Clone, Copy, Debug, PartialEq, Eq, Structural)]
pub enum PartFilePlan {
    /// Open the part file that is there, for reading and writing.
    OpenExisting,
    /// Make the part file and extend it to `length` bytes.
    Create { length: u64 },
}

/// State of one segmented download.
#[derive(Debug)]
pub struct SegmentedDownload {
    /// URL to download from.
    pub url: String,
    /// Total file size.
    pub total_size: u64,
    /// Path of the finished file.
    pub save_path: String,
    pub segments: Vec<Segment>,
    /// Whether the server answers range requests.
    pub supports_range: bool,
    /// ETag seen by the probe, echoed as `If-Range`.
    pub etag: Option<String>,
    /// Last-Modified seen by the probe.
    pub last_modified: Option<String>,
    /// Bytes downloaded over all segments.
    pub downloaded: u64,
    /// Most recent speed sample, in bytes a second.
    pub speed: u64,
    /// Number of segments that are being fetched.
    pub active_connections: u64,
    pub paused: bool,
}

impl SegmentedDownload {
    /// The segments, once there are any, partition the file, and the
    /// downloaded counter is the sum of theirs.
    pub open spec fn wf(&self) -> bool {
        &&& self.segments.len() == 0 || segments_partition(
            self.segments@,
            self.total_size as int,
        )
        &&& self.downloaded == downloaded_sum(self.segments@)
    }

    /// The download with another list of segments and counter.
    pub open spec fn with_segments(self, segments: Seq<Segment>, downloaded: u64) -> spec_fn(
        SegmentedDownload,
    ) -> bool {
        |d: SegmentedDownload|
            {
                &&& d.url == self.url
                &&& d.total_size == self.total_size
                &&& d.save_path == self.save_path
                &&& d.segments@ == segments
                &&& d.supports_range == self.supports_range
                &&& d.etag == self.etag
                &&& d.last_modified == self.last_modified
                &&& d.downloaded == downloaded
                &&& d.speed == self.speed
                &&& d.paused == self.paused
            }
    }

    /// A download without segments yet.
    pub fn new(
        url: String,
        total_size: u64,
        save_path: String,
        supports_range: bool,
        etag: Option<String>,
        last_modified: Option<String>,
    ) -> (d: SegmentedDownload)
        ensures
            d.wf(),
            d.url == url,
            d.total_size == total_size,
            d.save_path == save_path,
            d.segments@.len() == 0,
            d.supports_range == supports_range,
            d.etag == etag,
            d.last_modified == last_modified,
            d.downloaded == 0,
            d.speed == 0,
            d.active_connections == 0,
            !d.paused,
    {
        SegmentedDownload {
            url,
            total_size,
            save_path,
            segments: Vec::new(),
            supports_range,
            etag,
            last_modified,
            downloaded: 0,
            speed: 0,
            active_connections: 0,
            paused: false,
        }
    }

    /// Number of segments that `init_segments` makes: one where the server
    /// answers no range requests.
    pub open spec fn spec_planned_count(&self, max_connections: usize, min_segment_size: u64) -> int {
        if self.supports_range {
            spec_segment_count(
                self.total_size as int,
                max_connections as int,
                min_segment_size as int,
            )
        } else {
            1
        }
    }

    /// Splits the file into segments for a new download.
    pub fn init_segments(&mut self, max_connections: usize, min_segment_size: u64)
        ensures
            final(self).wf(),
            final(self).segments@ == planned_segments(
                old(self).total_size as int,
                old(self).spec_planned_count(max_connections, min_segment_size),
            ),
            old(self).with_segments(final(self).segments@, 0)(*final(self)),
            final(self).active_connections == old(self).active_connections,
    {
        let total = self.total_size;
        let n: usize = if self.supports_range {
            calculate_segment_count(total, max_connections, min_segment_size)
        } else {
            1
        };
        let mut segments: Vec<Segment> = Vec::new();
        proof {
            lemma_segment_count_bounds(
                total as int,
                max_connections as int,
                min_segment_size as int,
            );
            lemma_planned_partition(total as int, n as int);
        }
        if total > 0 {
            let size: u64 = total / (n as u64);
            let mut i: usize = 0;
            while i < n
                invariant
                    i <= n,
                    1 <= n <= total,
                    size == total / (n as u64),
                    segments@ == planned_segments(total as int, n as int).take(i as int),
                decreases n - i,
            {
                proof {
                    lemma_planned_bounds(total as int, n as int, i as int);
                }
                let start: u64 = (i as u64) * size;
                let end: u64 = if i == n - 1 {
                    total - 1
                } else {
                    start + size - 1
                };
                segments.push(Segment::new(i, start, end));
                assert(segments@ == planned_segments(total as int, n as int).take(i + 1)) by {
                    let p = planned_segments(total as int, n as int);
                    assert(p.take(i + 1) == p.take(i as int).push(p[i as int]));
                    assert(p[i as int] == planned_segment(total as int, n as int, i as int));
                }
                i += 1;
            }
            assert(planned_segments(total as int, n as int).take(n as int) == planned_segments(
                total as int,
                n as int,
            ));
        }
        self.segments = segments;
        self.downloaded = 0;
    }

    /// Takes over the segments of an earlier run.
    pub fn restore_segments(&mut self, saved_segments: Vec<Segment>)
        requires
            segments_partition(saved_segments@, old(self).total_size as int),
        ensures
            final(self).wf(),
            old(self).with_segments(saved_segments@, downloaded_sum(saved_segments@) as u64)(
                *final(self),
            ),
            final(self).active_connections == old(self).active_connections,
    {
        let mut sum: u64 = 0;
        let mut i: usize = 0;
        while i < saved_segments.len()
            invariant
                i <= saved_segments.len(),
                segments_partition(saved_segments@, self.total_size as int),
                sum == downloaded_sum(saved_segments@.take(i as int)),
            decreases saved_segments.len() - i,
        {
            proof {
                lemma_prefix_sum_bound(saved_segments@, self.total_size as int, i + 1);
                assert(saved_segments@.take(i + 1).drop_last() == saved_segments@.take(i as int));
            }
            sum = sum + saved_segments[i].downloaded;
            i += 1;
        }
        assert(saved_segments@.take(saved_segments.len() as int) == saved_segments@);
        self.downloaded = sum;
        self.segments = saved_segments;
    }

    /// Whether a list of segments may be restored into a download of
    /// `total_size` bytes.
    pub fn segments_valid(segments: &Vec<Segment>, total_size: u64) -> (r: bool)
        ensures
            r == segments_partition(segments@, total_size as int),
    {
        let n = segments.len();
        if total_size == 0 {
            return n == 0;
        }
        if n == 0 {
            return false;
        }
        if segments[0].start != 0 || segments[n - 1].end != total_size - 1 {
            return false;
        }
        let mut i: usize = 0;
        while i < n
            invariant
                i <= n,
                n == segments.len(),
                forall|j: int| 0 <= j < i ==> (#[trigger] segments@[j]).index == j && segments@[j].wf(),
                forall|j: int| 0 <= j < i && j < n - 1 ==> (#[trigger] segments@[j]).end + 1
                    == segments@[j + 1].start,
            decreases n - i,
        {
            let s = &segments[i];
            if s.index != i || s.start > s.end || s.end == u64::MAX {
                proof {
                    if segments_partition(segments@, total_size as int) {
                        assert(segments@[i as int].wf());
                        lemma_ends_bounded(segments@, total_size as int, i as int);
                    }
                }
                return false;
            }
            let len: u64 = s.end - s.start + 1;
            if s.downloaded > len {
                assert(!segments@[i as int].wf());
                return false;
            }
            match s.state {
                SegmentState::Completed => {
                    if s.downloaded != len {
                        assert(!segments@[i as int].wf());
                        return false;
                    }
                },
                _ => {},
            }
            if i < n - 1 && s.end + 1 != segments[i + 1].start {
                return false;
            }
            i += 1;
        }
        true
    }

    /// The segments of the download.
    pub fn segments(&self) -> (r: &Vec<Segment>)
        ensures
            r == &self.segments,
    {
        &self.segments
    }

    /// The path the data is written to while the download runs: the path of
    /// the finished file with `.part` appended.
    pub fn part_path(&self) -> (r: String)
        ensures
            r@ == self.save_path@ + ".part"@,
    {
        join2(self.save_path.as_str(), ".part")
    }

    /// Stops handing out work.
    pub fn pause(&mut self)
        ensures
            final(self).paused,
            *final(self) == (SegmentedDownload { paused: true, ..*old(self) }),
    {
        self.paused = true;
    }

    pub open spec fn spec_is_complete(&self) -> bool {
        self.downloaded >= self.total_size
    }

    /// Whether every byte of the file is there.
    #[verifier::when_used_as_spec(spec_is_complete)]
    pub fn is_complete(&self) -> (r: bool)
        ensures
            r == (self.downloaded >= self.total_size),
    {
        self.downloaded >= self.total_size
    }

    pub open spec fn spec_progress(&self) -> DownloadProgress {
        DownloadProgress {
            total_size: Some(self.total_size),
            completed_size: self.downloaded,
            download_speed: self.speed,
            upload_speed: 0,
            connections: if self.active_connections > u32::MAX {
                u32::MAX
            } else {
                self.active_connections as u32
            },
            seeders: 0,
            peers: 0,
            eta_seconds: spec_eta(
                if self.downloaded >= self.total_size {
                    0
                } else {
                    (self.total_size - self.downloaded) as u64
                },
                self.speed,
            ),
        }
    }

    /// The counters of the download; the time left is what remains divided
    /// by the speed, undefined while the speed is zero.
    pub fn progress(&self) -> (p: DownloadProgress)
        ensures
            p == self.spec_progress(),
            self.wf() ==> p.completed_size == downloaded_sum(self.segments@),
    {
        let remaining: u64 = if self.downloaded >= self.total_size {
            0
        } else {
            self.total_size - self.downloaded
        };
        DownloadProgress {
            total_size: Some(self.total_size),
            completed_size: self.downloaded,
            download_speed: self.speed,
            upload_speed: 0,
            connections: if self.active_connections > u32::MAX as u64 {
                u32::MAX
            } else {
                self.active_connections as u32
            },
            seeders: 0,
            peers: 0,
            eta_seconds: eta(remaining, self.speed),
        }
    }

    /// The last report of a run, made once every fetch has ended: the
    /// bytes that are there, with no speed, no connection and no time left.
    pub fn final_progress(&self) -> (p: DownloadProgress)
        ensures
            p == (DownloadProgress {
                total_size: Some(self.total_size),
                completed_size: self.downloaded,
                ..DownloadProgress::spec_zero()
            }),
    {
        DownloadProgress {
            total_size: Some(self.total_size),
            completed_size: self.downloaded,
            download_speed: 0,
            upload_speed: 0,
            connections: 0,
            seeders: 0,
            peers: 0,
            eta_seconds: None,
        }
    }

    /// What to do with the part file before the first byte is written: a
    /// part file that exists is opened as it is, for a resume; else one is
    /// made and extended to the total size.
    pub fn prepare_plan(&self, part_exists: bool) -> (r: PartFilePlan)
        ensures
            r == if part_exists {
                PartFilePlan::OpenExisting
            } else {
                PartFilePlan::Create { length: self.total_size }
            },
    {
        if part_exists {
            PartFilePlan::OpenExisting
        } else {
            PartFilePlan::Create { length: self.total_size }
        }
    }

    /// The jobs of the segments that still have bytes to fetch.
    pub fn pending_jobs(&self) -> (r: Vec<SegmentJob>)
        ensures
            r@ == spec_pending_jobs(self.segments@),
    {
        let mut jobs: Vec<SegmentJob> = Vec::new();
        let mut i: usize = 0;
        while i < self.segments.len()
            invariant
                i <= self.segments.len(),
                jobs@ == spec_pending_jobs(self.segments@.take(i as int)),
            decreases self.segments.len() - i,
        {
            let s = &self.segments[i];
            assert(self.segments@.take(i + 1).drop_last() == self.segments@.take(i as int));
            assert(self.segments@.take(i + 1).last() == *s);
            if !s.is_complete() {
                jobs.push(
                    SegmentJob { index: s.index, start: s.start, end: s.end, downloaded: s.downloaded },
                );
            }
            i += 1;
        }
        assert(self.segments@.take(self.segments.len() as int) == self.segments@);
        jobs
    }

    /// Whether a chunk of `len` bytes fits into what segment `index` still
    /// lacks.
    pub open spec fn chunk_fits(&self, index: usize, len: u64) -> bool {
        index < self.segments.len() && len <= self.segments@[index as int].spec_remaining()
    }

    /// Accounts for a chunk of `len` bytes that arrived for segment `index`
    /// and returns the file offset to write it at. A chunk that the
    /// segment's range has no room for is refused and changes nothing.
    pub fn record_chunk(&mut self, index: usize, len: u64) -> (r: Result<u64, EngineError>)
        requires
            old(self).wf(),
        ensures
            final(self).wf(),
            final(self).active_connections == old(self).active_connections,
            match r {
                Ok(offset) => {
                    let seg = old(self).segments@[index as int];
                    &&& old(self).chunk_fits(index, len)
                    &&& offset == seg.start + seg.downloaded
                    &&& old(self).with_segments(
                        old(self).segments@.update(index as int, segment_after_chunk(seg, len)),
                        (old(self).downloaded + len) as u64,
                    )(*final(self))
                },
                Err(e) => {
                    &&& !old(self).chunk_fits(index, len)
                    &&& *final(self) == *old(self)
                    &&& e@ == if index < old(self).segments.len() {
                        EngineErrorView::Network {
                            kind: NetworkErrorKind::Other,
                            message: "segment received more bytes than its range holds"@,
                        }
                    } else {
                        EngineErrorView::Internal("no such segment"@)
                    }
                },
            },
    {
        if index >= self.segments.len() {
            return Err(EngineError::Internal(owned("no such segment")));
        }
        proof {
            lemma_ends_bounded(self.segments@, self.total_size as int, index as int);
            lemma_sum_bound(self.segments@, self.total_size as int);
            assert(self.segments@[index as int].wf());
        }
        let seg = &self.segments[index];
        let room = seg.remaining();
        if len > room {
            return Err(
                EngineError::network(
                    NetworkErrorKind::Other,
                    owned("segment received more bytes than its range holds"),
                ),
            );
        }
        let offset: u64 = seg.start + seg.downloaded;
        let complete = len == room;
        let updated = Segment {
            index: seg.index,
            start: seg.start,
            end: seg.end,
            downloaded: seg.downloaded + len,
            state: if complete {
                SegmentState::Completed
            } else {
                SegmentState::Downloading
            },
        };
        proof {
            let old_segs = self.segments@;
            let new_segs = old_segs.update(index as int, updated);
            lemma_sum_update(old_segs, index as int, updated);
            assert(updated == segment_after_chunk(old_segs[index as int], len));
            lemma_update_keeps_partition(old_segs, self.total_size as int, index as int, updated);
            lemma_sum_bound(new_segs, self.total_size as int);
        }
        self.segments.set(index, updated);
        self.downloaded = self.downloaded + len;
        Ok(offset)
    }

    /// What to send for segment `index`, and the bookkeeping of starting
    /// it. Where the server answers range requests the transfer resumes
    /// after the bytes that are there; where it does not, the segment
    /// starts over and the request carries no `Range`.
    pub fn begin_segment(&mut self, index: usize) -> (r: SegmentRequest)
        requires
            old(self).wf(),
        ensures
            final(self).wf(),
            old(self).spec_begin(index, r, *final(self)),
    {
        if index >= self.segments.len() || self.paused {
            return SegmentRequest::Skip;
        }
        proof {
            lemma_ends_bounded(self.segments@, self.total_size as int, index as int);
            assert(self.segments@[index as int].wf());
        }
        let seg = &self.segments[index];
        let start = seg.start;
        let end = seg.end;
        let had = seg.downloaded;
        let seg_index = seg.index;
        if self.supports_range {
            if had > end - start {
                let updated = Segment {
                    index: seg_index,
                    start,
                    end,
                    downloaded: had,
                    state: SegmentState::Completed,
                };
                proof {
                    lemma_sum_update(self.segments@, index as int, updated);
                    lemma_update_keeps_partition(
                        self.segments@,
                        self.total_size as int,
                        index as int,
                        updated,
                    );
                }
                self.segments.set(index, updated);
                return SegmentRequest::AlreadyComplete;
            }
            let resume_start: u64 = start + had;
            let updated = Segment {
                index: seg_index,
                start,
                end,
                downloaded: had,
                state: SegmentState::Downloading,
            };
            proof {
                lemma_sum_update(self.segments@, index as int, updated);
                lemma_update_keeps_partition(
                    self.segments@,
                    self.total_size as int,
                    index as int,
                    updated,
                );
            }
            self.segments.set(index, updated);
            if self.active_connections < u64::MAX {
                self.active_connections = self.active_connections + 1;
            }
            SegmentRequest::Fetch {
                resume_start,
                range: Some(format_range(resume_start, end)),
                if_range: clone_opt(&self.etag),
            }
        } else {
            let updated = Segment {
                index: seg_index,
                start,
                end,
                downloaded: 0,
                state: SegmentState::Downloading,
            };
            proof {
                lemma_sum_update(self.segments@, index as int, updated);
                lemma_update_keeps_partition(
                    self.segments@,
                    self.total_size as int,
                    index as int,
                    updated,
                );
                lemma_sum_bound(self.segments@.update(index as int, updated), self.total_size as int);
            }
            self.segments.set(index, updated);
            self.downloaded = self.downloaded - had;
            if self.active_connections < u64::MAX {
                self.active_connections = self.active_connections + 1;
            }
            SegmentRequest::Fetch { resume_start: start, range: None, if_range: None }
        }
    }

    /// What `begin_segment` answers for segment `index` and what it leaves
    /// behind.
    pub open spec fn spec_begin(
        &self,
        index: usize,
        r: SegmentRequest,
        after: SegmentedDownload,
    ) -> bool {
        if index >= self.segments.len() || self.paused {
            r is Skip && after == *self
        } else {
            let seg = self.segments@[index as int];
            if self.supports_range && seg.downloaded >= seg.spec_len() {
                &&& r is AlreadyComplete
                &&& self.with_segments(
                    self.segments@.update(
                        index as int,
                        Segment { state: SegmentState::Completed, ..seg },
                    ),
                    self.downloaded,
                )(after)
                &&& after.active_connections == self.active_connections
            } else if self.supports_range {
                &&& r matches SegmentRequest::Fetch { resume_start, range, if_range }
                &&& resume_start == seg.start + seg.downloaded
                &&& range matches Some(text)
                &&& text@ == range_header((seg.start + seg.downloaded) as u64, seg.end)
                &&& if_range == self.etag
                &&& self.with_segments(
                    self.segments@.update(
                        index as int,
                        Segment { state: SegmentState::Downloading, ..seg },
                    ),
                    self.downloaded,
                )(after)
                &&& after.active_connections == spec_bump(self.active_connections)
            } else {
                &&& r matches SegmentRequest::Fetch { resume_start, range, if_range }
                &&& resume_start == seg.start
                &&& range is None
                &&& if_range is None
                &&& self.with_segments(
                    self.segments@.update(
                        index as int,
                        Segment { downloaded: 0, state: SegmentState::Downloading, ..seg },
                    ),
                    (self.downloaded - seg.downloaded) as u64,
                )(after)
                &&& after.active_connections == spec_bump(self.active_connections)
            }
        }
    }

    /// One fetch has ended, however it ended.
    pub fn segment_stopped(&mut self)
        ensures
            *final(self) == (SegmentedDownload {
                active_connections: if old(self).active_connections > 0 {
                    (old(self).active_connections - 1) as u64
                } else {
                    0
                },
                ..*old(self)
            }),
    {
        if self.active_connections > 0 {
            self.active_connections = self.active_connections - 1;
        }
    }

    /// Marks segment `index` as failed for good after `retries` attempts.
    /// An unknown index changes nothing.
    pub fn fail_segment(&mut self, index: usize, error: &EngineError, retries: u32)
        requires
            old(self).wf(),
        ensures
            final(self).wf(),
            final(self).active_connections == old(self).active_connections,
            index >= old(self).segments.len() ==> *final(self) == *old(self),
            index < old(self).segments.len() ==> {
                let seg = old(self).segments@[index as int];
                let now = final(self).segments@[index as int];
                &&& final(self).segments@ == old(self).segments@.update(index as int, now)
                &&& now.index == seg.index && now.start == seg.start && now.end == seg.end
                    && now.downloaded == seg.downloaded
                &&& now.state matches SegmentState::Failed { error: text, retries: n }
                &&& text@ == error@.describe()
                &&& n == retries
                &&& old(self).with_segments(final(self).segments@, old(self).downloaded)(
                    *final(self),
                )
            },
    {
        if index >= self.segments.len() {
            return ;
        }
        let seg = &self.segments[index];
        let updated = Segment {
            index: seg.index,
            start: seg.start,
            end: seg.end,
            downloaded: seg.downloaded,
            state: SegmentState::Failed { error: error.describe(), retries },
        };
        proof {
            assert(self.segments@[index as int].wf());
            lemma_sum_update(self.segments@, index as int, updated);
            lemma_update_keeps_partition(
                self.segments@,
                self.total_size as int,
                index as int,
                updated,
            );
        }
        self.segments.set(index, updated);
    }

    /// Publishes a speed sample.
    pub fn set_speed(&mut self, speed: u64)
        ensures
            *final(self) == (SegmentedDownload { speed, ..*old(self) }),
    {
        self.speed = speed;
    }

    /// What is left to do once every fetch has ended: rename the part file
    /// to the final name if every byte is there, else nothing.
    pub fn finalize_plan(&self) -> (r: Option<(String, String)>)
        ensures
            r is Some <==> self.downloaded >= self.total_size,
            r matches Some(pair) ==> pair.0@ == self.save_path@ + ".part"@ && pair.1@
                == self.save_path@,
    {
        if self.is_complete() {
            Some((self.part_path(), self.save_path.clone()))
        } else {
            None
        }
    }
}

/// A counter after one more, kept at its maximum.
pub open spec fn spec_bump(n: u64) -> u64 {
    if n < u64::MAX {
        (n + 1) as u64
    } else {
        n
    }
}

/// A segment after `len` more of its bytes have arrived.
pub open spec fn segment_after_chunk(s: Segment, len: u64) -> Segment {
    Segment {
        downloaded: (s.downloaded + len) as u64,
        state: if s.downloaded + len >= s.spec_len() {
            SegmentState::Completed
        } else {
            SegmentState::Downloading
        },
        ..s
    }
}

/// Replacing a segment by a well-formed one over the same range keeps the
/// partition.
pub proof fn lemma_update_keeps_partition(segs: Seq<Segment>, total: int, i: int, s: Segment)
    requires
        segs.len() == 0 || segments_partition(segs, total),
        0 <= i < segs.len(),
        s.index == segs[i].index,
        s.start == segs[i].start,
        s.end == segs[i].end,
        s.wf(),
    ensures
        segments_partition(segs.update(i, s), total),
{
    let u = segs.update(i, s);
    assert forall|j: int| 0 <= j < u.len() implies (#[trigger] u[j]).index == j && u[j].wf() by {
        if j != i {
            assert(u[j] == segs[j]);
        } else {
            assert(segs[j].index == j);
        }
    }
    assert forall|j: int| 0 <= j < u.len() - 1 implies (#[trigger] u[j]).end + 1 == u[j
        + 1].start by {
        assert(segs[j].end + 1 == segs[j + 1].start);
    }
}

/// For a download of `N` bytes the downloaded counts of its segments add
/// up to the completed size that it reports, which is at most `N`, and the
/// ranges of its segments, once it has any, partition `[0, N)`
/// contiguously.
pub proof fn lemma_segment_invariant(d: SegmentedDownload)
    requires
        d.wf(),
    ensures
        downloaded_sum(d.segments@) == d.spec_progress().completed_size,
        d.spec_progress().completed_size <= d.total_size,
        d.segments.len() > 0 ==> segments_partition(d.segments@, d.total_size as int),
{
    if d.segments.len() > 0 {
        lemma_sum_bound(d.segments@, d.total_size as int);
    } else {
        assert(d.segments@ =~= Seq::empty());
    }
}

// ---------------------------------------------------------------------------
// Speed, progress reports, retries
// ---------------------------------------------------------------------------

/// Samples the speed of one fetch over rolling windows.
#[derive(Clone, Copy, Debug, PartialEq, Eq, Structural)]
pub struct SpeedMeter {
    /// When the current window began, in milliseconds.
    pub window_start_ms: u64,
    /// Bytes seen in the current window.
    pub bytes: u64,
}

/// Bytes a second for `bytes` in `elapsed_ms` milliseconds, rounded down and
/// kept within `u64`.
pub open spec fn spec_rate(bytes: u64, elapsed_ms: u64) -> u64 {
    let rate = bytes * 1000 / (elapsed_ms as int);
    if rate > u64::MAX {
        u64::MAX
    } else {
        rate as u64
    }
}

impl SpeedMeter {
    pub fn new(now_ms: u64) -> (m: SpeedMeter)
        ensures
            m == (SpeedMeter { window_start_ms: now_ms, bytes: 0 }),
    {
        SpeedMeter { window_start_ms: now_ms, bytes: 0 }
    }

    pub open spec fn spec_elapsed(&self, now_ms: u64) -> u64 {
        if now_ms >= self.window_start_ms {
            (now_ms - self.window_start_ms) as u64
        } else {
            0
        }
    }

    pub open spec fn spec_bytes_with(&self, len: u64) -> u64 {
        if self.bytes + len > u64::MAX {
            u64::MAX
        } else {
            (self.bytes + len) as u64
        }
    }

    /// Adds `len` bytes seen at `now_ms`. Once the window is at least
    /// `SPEED_WINDOW_MS` long the sample is the bytes of the window divided
    /// by its length, and a new window begins.
    pub fn record(&mut self, now_ms: u64, len: u64) -> (r: Option<u64>)
        ensures
            old(self).spec_elapsed(now_ms) >= SPEED_WINDOW_MS ==> r == Some(
                spec_rate(old(self).spec_bytes_with(len), old(self).spec_elapsed(now_ms)),
            ) && *final(self) == (SpeedMeter { window_start_ms: now_ms, bytes: 0 }),
            old(self).spec_elapsed(now_ms) < SPEED_WINDOW_MS ==> r is None && *final(self) == (
            SpeedMeter {
                window_start_ms: old(self).window_start_ms,
                bytes: old(self).spec_bytes_with(len),
            }),
    {
        let bytes = self.bytes.saturating_add(len);
        let elapsed: u64 = if now_ms >= self.window_start_ms {
            now_ms - self.window_start_ms
        } else {
            0
        };
        if elapsed >= SPEED_WINDOW_MS {
            let rate: u128 = (bytes as u128) * 1000 / (elapsed as u128);
            self.window_start_ms = now_ms;
            self.bytes = 0;
            if rate > u64::MAX as u128 {
                Some(u64::MAX)
            } else {
                Some(rate as u64)
            }
        } else {
            self.bytes = bytes;
            None
        }
    }
}

/// Limits the progress reports of one download.
#[derive(Clone, Copy, Debug, PartialEq, Eq, Structural)]
pub struct ProgressClock {
    /// When the last report went out, in milliseconds.
    pub last_ms: u64,
}

impl ProgressClock {
    pub fn new(now_ms: u64) -> (c: ProgressClock)
        ensures
            c.last_ms == now_ms,
    {
        ProgressClock { last_ms: now_ms }
    }

    pub open spec fn spec_due(&self, now_ms: u64) -> bool {
        now_ms >= self.last_ms && now_ms - self.last_ms >= PROGRESS_INTERVAL_MS
    }

    /// Whether a report is due at `now_ms`: at least `PROGRESS_INTERVAL_MS`
    /// after the last one. A due report is taken to go out now.
    pub fn due(&mut self, now_ms: u64) -> (r: bool)
        ensures
            r == old(self).spec_due(now_ms),
            final(self).last_ms == if r {
                now_ms
            } else {
                old(self).last_ms
            },
    {
        if now_ms >= self.last_ms && now_ms - self.last_ms >= PROGRESS_INTERVAL_MS {
            self.last_ms = now_ms;
            true
        } else {
            false
        }
    }
}

pub open spec fn pow2(e: nat) -> nat
    decreases e,
{
    if e == 0 {
        1
    } else {
        2 * pow2((e - 1) as nat)
    }
}

/// The pause before retry number `attempt` (from 0) of a segment: the base
/// delay doubled with every attempt, at most `cap_ms`; no retry once
/// `max_retries` attempts were made.
pub open spec fn spec_retry_delay(attempt: u32, max_retries: usize, base_ms: u64, cap_ms: u64)
    -> Option<u64> {
    if attempt >= max_retries {
        None
    } else {
        Some(min_int(base_ms * pow2(attempt as nat), cap_ms as int) as u64)
    }
}

pub proof fn lemma_pow2_positive(e: nat)
    ensures
        pow2(e) >= 1,
    decreases e,
{
    if e > 0 {
        lemma_pow2_positive((e - 1) as nat);
    }
}

/// The pause before a retry, or `None` when the retries are used up.
pub fn retry_delay(attempt: u32, max_retries: usize, base_ms: u64, cap_ms: u64) -> (r: Option<u64>)
    ensures
        r == spec_retry_delay(attempt, max_retries, base_ms, cap_ms),
{
    if attempt as usize >= max_retries {
        return None;
    }
    let mut delay: u64 = if base_ms <= cap_ms {
        base_ms
    } else {
        cap_ms
    };
    let mut k: u32 = 0;
    assert(base_ms * pow2(0) == base_ms) by {
        assert(pow2(0) == 1);
    }
    while k < attempt
        invariant
            k <= attempt,
            delay == min_int(base_ms * pow2(k as nat), cap_ms as int),
        decreases attempt - k,
    {
        proof {
            lemma_pow2_positive(k as nat);
            assert(base_ms * pow2((k + 1) as nat) == 2 * (base_ms * pow2(k as nat)))
                by (nonlinear_arith)
                requires
                    pow2((k + 1) as nat) == 2 * pow2(k as nat),
            ;
        }
        if delay >= cap_ms - delay {
            delay = cap_ms;
        } else {
            delay = delay * 2;
        }
        k += 1;
    }
    Some(delay)
}

/// Whether a download whose segments failed for good may be tried again:
/// it may if the error of any failed segment is transient.
pub open spec fn any_retryable(errors: Seq<EngineError>) -> bool {
    exists|i: int| 0 <= i < errors.len() && (#[trigger] errors[i])@.is_retryable()
}

pub fn failure_retryable(errors: &Vec<EngineError>) -> (r: bool)
    ensures
        r == any_retryable(errors@),
{
    let mut i: usize = 0;
    while i < errors.len()
        invariant
            i <= errors.len(),
            forall|j: int| 0 <= j < i ==> !(#[trigger] errors@[j])@.is_retryable(),
        decreases errors.len() - i,
    {
        if errors[i].is_retryable() {
            return true;
        }
        i += 1;
    }
    false
}

/// The pause before a failed fetch is tried again, or `None` where it is
/// not: only a transient error is tried again, only while the download
/// has not been stopped, and only while retries are left.
pub open spec fn spec_segment_retry(
    error: EngineErrorView,
    attempt: u32,
    stopped: bool,
    max_retries: usize,
    base_ms: u64,
    cap_ms: u64,
) -> Option<u64> {
    if error.is_retryable() && !stopped {
        spec_retry_delay(attempt, max_retries, base_ms, cap_ms)
    } else {
        None
    }
}

/// The pause before a failed fetch is tried again, or `None` where the
/// segment has failed for good.
pub fn segment_retry(
    error: &EngineError,
    attempt: u32,
    stopped: bool,
    max_retries: usize,
    base_ms: u64,
    cap_ms: u64,
) -> (r: Option<u64>)
    ensures
        r == spec_segment_retry(error@, attempt, stopped, max_retries, base_ms, cap_ms),
{
    if error.is_retryable() && !stopped {
        retry_delay(attempt, max_retries, base_ms, cap_ms)
    } else {
        None
    }
}

/// Which of the errors of the failed segments stands for the failure of
/// the download: the first that is as transient as the download, so that
/// the download may be tried again exactly if one of its segments may.
pub fn failure_index(errors: &Vec<EngineError>) -> (r: Option<usize>)
    ensures
        match r {
            None => errors@.len() == 0,
            Some(i) => {
                &&& i < errors@.len()
                &&& errors@[i as int]@.is_retryable() == any_retryable(errors@)
                &&& forall|j: int|
                    0 <= j < i ==> (#[trigger] errors@[j])@.is_retryable() != any_retryable(
                        errors@,
                    )
            },
        },
{
    if errors.len() == 0 {
        return None;
    }
    let wanted = failure_retryable(errors);
    let mut i: usize = 0;
    while i < errors.len()
        invariant
            i <= errors.len(),
            errors.len() > 0,
            wanted == any_retryable(errors@),
            forall|j: int| 0 <= j < i ==> (#[trigger] errors@[j])@.is_retryable() != wanted,
        decreases errors.len() - i,
    {
        if errors[i].is_retryable() == wanted {
            return Some(i);
        }
        i += 1;
    }
    proof {
        if wanted {
            let k = choose|k: int| 0 <= k < errors@.len() && (#[trigger] errors@[k])@.is_retryable();
            assert(errors@[k]@.is_retryable() != wanted);
        } else {
            assert(errors@[0]@.is_retryable() != wanted);
        }
    }
    Some(0)
}

/// The error of a download that ended short of its size though none of
/// its segments failed.
pub fn incomplete_transfer() -> (e: EngineError)
    ensures
        e@ == (EngineErrorView::Network {
            kind: NetworkErrorKind::Other,
            message: "The transfer ended before every byte had arrived"@,
        }),
{
    EngineError::network(
        NetworkErrorKind::Other,
        owned("The transfer ended before every byte had arrived"),
    )
}

/// How a run of a download ended.
#[derive(Clone, Copy, Debug, PartialEq, Eq, Structural)]
pub enum RunEnd {
    /// Every byte is there.
    Complete,
    /// The download was paused or cancelled before every byte was there.
    Stopped,
    /// Bytes are missing though nothing stopped the download.
    Failed,
}

impl SegmentedDownload {
    /// How the run ended, once every fetch has ended; `stopped` says
    /// whether the download was paused or cancelled.
    pub fn run_end(&self, stopped: bool) -> (r: RunEnd)
        ensures
            r == if self.downloaded >= self.total_size {
                RunEnd::Complete
            } else if stopped {
                RunEnd::Stopped
            } else {
                RunEnd::Failed
            },
    {
        if self.is_complete() {
            RunEnd::Complete
        } else if stopped {
            RunEnd::Stopped
        } else {
            RunEnd::Failed
        }
    }
}

} // verus!
