//! The download coordinator: the lifecycle of every download, admission
//! through the concurrency limiter and the events that each step emits. The
//! coordinator decides; the caller runs the tasks, broadcasts the events
//! and reports back what the tasks did.

use crate::config::{first_violation, DirProbe, EngineConfig};
use crate::error::{EngineError, EngineErrorView};
use crate::text::{chars_of, is_text, join2, owned};
use crate::torrent::bencode::{
    describes, lemma_described_consistent, parse_metainfo, stated_consistent, torrent_refusal,
};
use crate::torrent::magnet::{magnet_refusal, parse_magnet, spec_parse_magnet};
use crate::torrent::metainfo::Metainfo;
use crate::torrent::{hash_hex, hex_of_bytes, MagnetUri};
use crate::types::{
    canonical_uuid_text, clone_opt, clone_pairs, is_random_uuid, opt_view, pairs_view, transition_allowed,
    DownloadEvent, DownloadId, DownloadKind, DownloadMetadata, DownloadOptions, DownloadProgress,
    DownloadState, DownloadStatus, DownloadStatusView, EventKind, GlobalStats, StateTag, Timestamp,
};
use std::collections::HashMap;
use vstd::prelude::*;

verus! {

/// Number of events that the broadcast channel buffers for slow
/// subscribers.
pub const EVENT_CHANNEL_CAPACITY: usize = 1024;

/// Seconds that shutdown waits for each task.
pub const SHUTDOWN_TIMEOUT_SECS: u64 = 5;

/// Why `url::Url::parse` refuses a text, as the `Display` text of its
/// error; nothing for a text that it reads as a URL.
pub uninterp spec fn url_error_of(text: Seq<char>) -> Option<Seq<char>>;

/// The scheme that `url::Url::parse` finds in a text, in lower case;
/// nothing for a text that is no URL.
pub uninterp spec fn url_scheme_of(text: Seq<char>) -> Option<Seq<char>>;

/// The final segment of the path that `url::Url::parse` finds in a text;
/// nothing for a text that is no URL, or a URL without a path of segments.
pub uninterp spec fn url_last_segment_of(text: Seq<char>) -> Option<Seq<char>>;

/// The host that `url::Url::parse` finds in a text; nothing for a text
/// that is no URL, or a URL without a host.
pub uninterp spec fn url_host_of(text: Seq<char>) -> Option<Seq<char>>;

/// `url::Url::parse`, then the `Display` text of its error, if it gave
/// one.
#[verifier::external_body]
fn url_parse_error(text: &str) -> (r: Option<String>)
    ensures
        opt_view(r) == url_error_of(text@),
{
    url::Url::parse(text).err().map(|e| e.to_string())
}

/// `url::Url::parse`, then `Url::scheme`. A text has a scheme exactly if
/// the parser reads it as a URL.
#[verifier::external_body]
fn url_scheme(text: &str) -> (r: Option<String>)
    ensures
        opt_view(r) == url_scheme_of(text@),
        r is Some <==> url_error_of(text@) is None,
{
    url::Url::parse(text).ok().map(|u| u.scheme().to_string())
}

/// `url::Url::parse`, then `Url::path_segments` and the last of them.
#[verifier::external_body]
fn url_last_segment(text: &str) -> (r: Option<String>)
    ensures
        opt_view(r) == url_last_segment_of(text@),
{
    url::Url::parse(text).ok().and_then(
        |u| u.path_segments().and_then(|s| s.last()).map(|s| s.to_string()),
    )
}

/// `url::Url::parse`, then `Url::host_str`.
#[verifier::external_body]
pub(crate) fn url_host(text: &str) -> (r: Option<String>)
    ensures
        opt_view(r) == url_host_of(text@),
{
    url::Url::parse(text).ok().and_then(|u| u.host_str().map(|h| h.to_string()))
}

/// What the URL parser found in the text of a URL.
#[derive(Debug)]
pub struct UrlParts {
    pub scheme: String,
    /// The final segment of the path.
    pub last_segment: Option<String>,
}

/// Where a download stands in the order of its events.
#[derive(Clone, Copy, Debug, PartialEq, Eq, Structural)]
pub enum EventPhase {
    /// `Added` went out, nothing else.
    Added,
    /// `Started` went out; progress, pauses and resumes may follow. A
    /// resumed download stays here: it starts only once.
    Running,
    /// `Completed` or `Failed` went out.
    Finished,
}

/// One download under the coordinator.
#[derive(Debug)]
pub struct ManagedDownload {
    pub status: DownloadStatus,
    /// Whether a task of the caller is at work on the download.
    pub has_task: bool,
    pub phase: EventPhase,
}

/// The download coordinator.
#[derive(Debug)]
pub struct DownloadEngine {
    pub config: EngineConfig,
    /// The downloads in the order they were added.
    pub downloads: Vec<ManagedDownload>,
    /// The place of each download in that order, by the number of its id.
    pub index: HashMap<u128, usize>,
    /// Number of permits of the limiter that are out.
    pub permits_in_use: usize,
    pub shutting_down: bool,
}

/// A download in this state holds a permit of the limiter.
pub open spec fn holds_permit(tag: StateTag) -> bool {
    tag == StateTag::Downloading || tag == StateTag::Seeding
}

/// Number of downloads that hold a permit.
pub open spec fn count_permits(ds: Seq<ManagedDownload>) -> nat
    decreases ds.len(),
{
    if ds.len() == 0 {
        0
    } else {
        count_permits(ds.drop_last()) + if holds_permit(ds.last().status.state.spec_tag()) {
            1nat
        } else {
            0nat
        }
    }
}

/// The phases of the event order that each state can be in.
pub open spec fn phase_matches(tag: StateTag, phase: EventPhase) -> bool {
    match tag {
        StateTag::Queued => phase == EventPhase::Added,
        StateTag::Connecting => phase == EventPhase::Added || phase == EventPhase::Running,
        StateTag::Downloading | StateTag::Seeding | StateTag::Paused => phase
            == EventPhase::Running,
        StateTag::Completed => phase == EventPhase::Running || phase == EventPhase::Finished,
        StateTag::Error => phase == EventPhase::Finished,
    }
}

/// The event is the change of download `id` from a state `from` to a state
/// `to`.
pub open spec fn is_state_change(e: DownloadEvent, id: DownloadId, from: StateTag, to: StateTag)
    -> bool {
    e matches DownloadEvent::StateChanged { id: i, old_state, new_state } && i == id
        && old_state.spec_tag() == from && new_state.spec_tag() == to
}

/// Every state change among the events is a step of the lifecycle table.
pub open spec fn lawful(events: Seq<DownloadEvent>) -> bool {
    forall|i: int|
        0 <= i < events.len() ==> ((#[trigger] events[i]) matches DownloadEvent::StateChanged {
            old_state,
            new_state,
            ..
        } ==> transition_allowed(old_state.spec_tag(), new_state.spec_tag()))
}

/// Every event is about download `id`.
pub open spec fn all_about(events: Seq<DownloadEvent>, id: DownloadId) -> bool {
    forall|i: int| 0 <= i < events.len() ==> (#[trigger] events[i]).spec_id() == id
}

/// The phase after an event of the given kind, starting from `phase`
/// (`None`: the download is unknown); nothing if the event is out of
/// order.
pub open spec fn phase_step(phase: Option<EventPhase>, kind: EventKind) -> Option<
    Option<EventPhase>,
> {
    match (phase, kind) {
        (Some(_), EventKind::StateChanged) => Some(phase),
        (Some(_), EventKind::Removed) => Some(None),
        (None, EventKind::Added) => Some(Some(EventPhase::Added)),
        (Some(EventPhase::Added), EventKind::Started) => Some(Some(EventPhase::Running)),
        (Some(EventPhase::Running), EventKind::Progress) => Some(Some(EventPhase::Running)),
        (Some(EventPhase::Running), EventKind::Paused) => Some(Some(EventPhase::Running)),
        (Some(EventPhase::Running), EventKind::Resumed) => Some(Some(EventPhase::Running)),
        (Some(EventPhase::Running), EventKind::Completed) => Some(Some(EventPhase::Finished)),
        (Some(EventPhase::Added), EventKind::Failed) => Some(Some(EventPhase::Finished)),
        (Some(EventPhase::Running), EventKind::Failed) => Some(Some(EventPhase::Finished)),
        _ => None,
    }
}

/// The phase after a row of events, starting from `phase`; nothing if one
/// of them is out of order.
pub open spec fn run_phases(phase: Option<EventPhase>, kinds: Seq<EventKind>) -> Option<
    Option<EventPhase>,
>
    decreases kinds.len(),
{
    if kinds.len() == 0 {
        Some(phase)
    } else {
        match run_phases(phase, kinds.drop_last()) {
            Some(p) => phase_step(p, kinds.last()),
            None => None,
        }
    }
}

/// The kinds of a row of events.
pub open spec fn kinds_of(events: Seq<DownloadEvent>) -> Seq<EventKind> {
    events.map_values(|e: DownloadEvent| e.spec_kind())
}

/// `id` is the id of one of the downloads.
pub open spec fn contains_id(ds: Seq<ManagedDownload>, id: DownloadId) -> bool {
    exists|i: int| 0 <= i < ds.len() && (#[trigger] ds[i]).status.id == id
}

/// The index of the download `id`.
pub open spec fn index_of(ds: Seq<ManagedDownload>, id: DownloadId) -> int {
    choose|i: int| 0 <= i < ds.len() && (#[trigger] ds[i]).status.id == id
}

/// The index knows the downloads by their ids: it holds the place of each
/// download, and nothing else.
pub open spec fn indexed(ds: Seq<ManagedDownload>, index: Map<u128, usize>) -> bool {
    &&& forall|i: int|
        0 <= i < ds.len() ==> index.contains_key((#[trigger] ds[i]).status.id.value)
            && index[ds[i].status.id.value] == i
    &&& forall|k: u128| #[trigger]
        index.contains_key(k) ==> index[k] < ds.len() && ds[index[k] as int].status.id.value == k
}

/// No two downloads have the same id.
pub open spec fn ids_unique(ds: Seq<ManagedDownload>) -> bool {
    forall|i: int, j: int|
        0 <= i < ds.len() && 0 <= j < ds.len() && i != j ==> (#[trigger] ds[i]).status.id != (
        #[trigger] ds[j]).status.id
}

/// Replacing one download changes the number of permits by the change of
/// that download's.
pub proof fn lemma_permits_update(ds: Seq<ManagedDownload>, i: int, d: ManagedDownload)
    requires
        0 <= i < ds.len(),
    ensures
        count_permits(ds.update(i, d)) == count_permits(ds) - (if holds_permit(
            ds[i].status.state.spec_tag(),
        ) {
            1int
        } else {
            0int
        }) + (if holds_permit(d.status.state.spec_tag()) {
            1int
        } else {
            0int
        }),
    decreases ds.len(),
{
    let u = ds.update(i, d);
    if i == ds.len() - 1 {
        assert(u.drop_last() == ds.drop_last());
    } else {
        lemma_permits_update(ds.drop_last(), i, d);
        assert(u.drop_last() == ds.drop_last().update(i, d));
    }
}

/// Removing one download takes its permit out of the count.
pub proof fn lemma_permits_remove(ds: Seq<ManagedDownload>, i: int)
    requires
        0 <= i < ds.len(),
    ensures
        count_permits(ds.remove(i)) == count_permits(ds) - (if holds_permit(
            ds[i].status.state.spec_tag(),
        ) {
            1int
        } else {
            0int
        }),
    decreases ds.len(),
{
    let r = ds.remove(i);
    if i == ds.len() - 1 {
        assert(r == ds.drop_last());
    } else {
        lemma_permits_remove(ds.drop_last(), i);
        assert(r.drop_last() == ds.drop_last().remove(i));
        assert(r.last() == ds.last());
    }
}

pub proof fn lemma_permits_bound(ds: Seq<ManagedDownload>)
    ensures
        count_permits(ds) <= ds.len(),
    decreases ds.len(),
{
    if ds.len() > 0 {
        lemma_permits_bound(ds.drop_last());
    }
}

/// The places of the downloads by the numbers of their ids.
fn index_of_ids(ds: &Vec<ManagedDownload>) -> (index: HashMap<u128, usize>)
    ensures
        ids_unique(ds@) ==> indexed(ds@, index@),
{
    broadcast use vstd::std_specs::hash::group_hash_axioms;

    let mut index: HashMap<u128, usize> = HashMap::new();
    let mut i: usize = 0;
    while i < ds.len()
        invariant
            i <= ds.len(),
            ids_unique(ds@) ==> indexed(ds@.take(i as int), index@),
        decreases ds.len() - i,
    {
        proof {
            if ids_unique(ds@) {
                let before = ds@.take(i as int);
                assert(ds@.take(i + 1) == before.push(ds@[i as int]));
                assert(!contains_id(before, ds@[i as int].status.id)) by {
                    if contains_id(before, ds@[i as int].status.id) {
                        let j = index_of(before, ds@[i as int].status.id);
                        assert(before[j] == ds@[j]);
                    }
                }
                lemma_index_grows(before, index@, ds@[i as int]);
            }
        }
        index.insert(ds[i].status.id.value, i);
        i += 1;
    }
    assert(ds@.take(ds.len() as int) == ds@);
    index
}

/// What admission answers.
#[derive(Debug)]
pub enum Admission {
    /// The download is unknown or does not wait at the limiter.
    NotWaiting,
    /// Every permit is out: ask again when one comes back.
    Wait,
    /// The download holds a permit now and is downloading.
    Granted { events: Vec<DownloadEvent> },
}

/// How the task of a download ended.
#[derive(Debug)]
pub enum TaskOutcome {
    /// Every byte is there; `filename` is the name of the file on disk.
    Completed { filename: Option<String> },
    /// A torrent is complete and goes on seeding.
    Seeding,
    Failed(EngineError),
    /// The task saw its cancellation signal.
    Cancelled,
}

/// A torrent that was added from its file.
#[derive(Debug)]
pub struct TorrentAdded {
    pub id: DownloadId,
    pub events: Vec<DownloadEvent>,
    /// What the file states, for the task of the torrent.
    pub metainfo: Metainfo,
}

/// A magnet link that was added.
#[derive(Debug)]
pub struct MagnetAdded {
    pub id: DownloadId,
    pub events: Vec<DownloadEvent>,
    /// What the link states.
    pub magnet: MagnetUri,
}

/// The error for a torrent file whose files, piece length and piece hashes
/// do not agree.
pub open spec fn inconsistent_torrent() -> EngineErrorView {
    EngineErrorView::InvalidInput {
        field: "torrent"@,
        message: "Invalid torrent: files, piece length and piece hashes do not agree"@,
    }
}

/// The error with which the bytes are refused as a torrent, if they are:
/// they are no torrent file, or what the file states does not agree.
pub open spec fn spec_torrent_refusal(data: Seq<u8>) -> Option<EngineErrorView> {
    match torrent_refusal(data) {
        Some(why) => Some(
            EngineErrorView::InvalidInput {
                field: "torrent"@,
                message: "Invalid torrent: "@ + why,
            },
        ),
        None => if stated_consistent(data) {
            None
        } else {
            Some(inconsistent_torrent())
        },
    }
}

/// What remains to be done after a download was cancelled.
#[derive(Debug)]
pub struct CancelPlan {
    pub events: Vec<DownloadEvent>,
    /// Whether a task is to be signalled.
    pub cancel_task: bool,
    /// The directory of the download.
    pub save_dir: String,
    /// The files in that directory to delete: the final file and the part
    /// file, if the caller asked for files to go; none else.
    pub delete: Vec<String>,
}

/// The name of a new HTTP download: the one the caller gave, else the last
/// segment of the URL's path unless empty, else nothing.
pub open spec fn derived_filename(given: Option<Seq<char>>, last_segment: Option<Seq<char>>)
    -> Option<Seq<char>> {
    match given {
        Some(n) => Some(n),
        None => match last_segment {
            Some(s) => if s.len() > 0 {
                Some(s)
            } else {
                None
            },
            None => None,
        },
    }
}

/// Whether the scheme is one that HTTP downloads accept.
pub open spec fn scheme_accepted(scheme: Seq<char>) -> bool {
    scheme == "http"@ || scheme == "https"@
}

impl DownloadEngine {
    /// No two downloads share an id, and the index holds the place of
    /// each; the permits that are out are those of the downloading and
    /// seeding downloads; every download is at a stage of its event order
    /// that fits its state.
    pub open spec fn wf(&self) -> bool {
        &&& self.permits_in_use == count_permits(self.downloads@)
        &&& ids_unique(self.downloads@)
        &&& indexed(self.downloads@, self.index@)
        &&& forall|i: int|
            0 <= i < self.downloads.len() ==> phase_matches(
                (#[trigger] self.downloads@[i]).status.state.spec_tag(),
                self.downloads@[i].phase,
            )
    }

    pub open spec fn contains(&self, id: DownloadId) -> bool {
        contains_id(self.downloads@, id)
    }

    /// The record of download `id`.
    pub open spec fn record(&self, id: DownloadId) -> ManagedDownload {
        self.downloads@[index_of(self.downloads@, id)]
    }

    /// The stage of download `id` in its event order; `None` for an unknown
    /// download.
    pub open spec fn phase_of(&self, id: DownloadId) -> Option<EventPhase> {
        if self.contains(id) {
            Some(self.record(id).phase)
        } else {
            None
        }
    }

    /// Number of downloads that are downloading or seeding.
    pub open spec fn active_count(&self) -> nat {
        count_permits(self.downloads@)
    }

    /// One of the downloads has an id of the kind that fresh ids are of.
    /// Where none has, no fresh id is taken.
    pub open spec fn holds_random_id(&self) -> bool {
        exists|i: int|
            0 <= i < self.downloads@.len() && is_random_uuid(
                (#[trigger] self.downloads@[i]).status.id.value,
            )
    }

    /// No more permits are out than `max_concurrent_downloads` allows.
    pub open spec fn within_limit(&self) -> bool {
        self.permits_in_use <= self.config.max_concurrent_downloads
    }

    /// The engine but for its downloads and permits.
    pub open spec fn same_setup(&self, other: DownloadEngine) -> bool {
        &&& self.config == other.config
        &&& self.shutting_down == other.shutting_down
    }

    /// The engine with download `idx` replaced by `d`.
    pub open spec fn with_record(&self, idx: int, d: ManagedDownload, after: DownloadEngine) -> bool {
        &&& self.same_setup(after)
        &&& after.downloads@ == self.downloads@.update(idx, d)
    }

    /// A coordinator without downloads, if the configuration is valid.
    pub fn new(config: EngineConfig, dir: DirProbe) -> (r: Result<DownloadEngine, EngineError>)
        ensures
            match r {
                Ok(e) => {
                    &&& first_violation(config, dir) is None
                    &&& e.wf()
                    &&& e.config == config
                    &&& e.downloads@.len() == 0
                    &&& e.permits_in_use == 0
                    &&& e.within_limit()
                    &&& !e.shutting_down
                },
                Err(e) => first_violation(config, dir) == Some(e@),
            },
    {
        match config.validate(dir) {
            Err(e) => {
                return Err(e);
            },
            Ok(_) => {},
        }
        Ok(
            DownloadEngine {
                config,
                downloads: Vec::new(),
                index: HashMap::new(),
                permits_in_use: 0,
                shutting_down: false,
            },
        )
    }

    /// The place of download `id` in the list, if it is known: the index
    /// is asked, the list is not searched.
    pub fn find_index(&self, id: DownloadId) -> (r: Option<usize>)
        requires
            self.wf(),
        ensures
            match r {
                Some(i) => i < self.downloads.len() && self.downloads@[i as int].status.id == id
                    && i == index_of(self.downloads@, id) && self.contains(id),
                None => !self.contains(id),
            },
    {
        broadcast use vstd::std_specs::hash::group_hash_axioms;

        match self.index.get(&id.value) {
            Some(i) => {
                let i = *i;
                proof {
                    let k = index_of(self.downloads@, id);
                    assert(self.downloads@[i as int].status.id == id);
                    assert(0 <= k < self.downloads.len() && self.downloads@[k].status.id == id);
                }
                Some(i)
            },
            None => {
                assert(!self.contains(id)) by {
                    if self.contains(id) {
                        let k = index_of(self.downloads@, id);
                        assert(self.index@.contains_key(self.downloads@[k].status.id.value));
                    }
                }
                None
            },
        }
    }

    /// The error for an id that no download has.
    fn not_found(id: DownloadId) -> (e: EngineError)
        ensures
            e@ == EngineErrorView::NotFound(canonical_uuid_text(id.value)),
    {
        EngineError::NotFound(id.to_text())
    }

    /// The error for an operation that the state of the download forbids.
    fn invalid_state(action: &str, tag: StateTag) -> (e: EngineError)
        ensures
            e@ == (EngineErrorView::InvalidState { action: action@, current_state: tag.name() }),
    {
        EngineError::InvalidState { action: owned(action), current_state: tag.to_name() }
    }

    /// Moves download `idx` to `new_state` and returns the event of the
    /// change.
    fn transition(
        &mut self,
        idx: usize,
        new_state: DownloadState,
        new_phase: EventPhase,
        has_task: bool,
    ) -> (e: DownloadEvent)
        requires
            old(self).wf(),
            idx < old(self).downloads.len(),
            phase_matches(new_state.spec_tag(), new_phase),
        ensures
            final(self).wf(),
            e == (DownloadEvent::StateChanged {
                id: old(self).downloads@[idx as int].status.id,
                old_state: old(self).downloads@[idx as int].status.state,
                new_state,
            }),
            old(self).with_record(
                idx as int,
                ManagedDownload {
                    status: DownloadStatus {
                        state: new_state,
                        ..old(self).downloads@[idx as int].status
                    },
                    phase: new_phase,
                    has_task,
                },
                *final(self),
            ),
            final(self).permits_in_use == count_permits(final(self).downloads@),
            final(self).permits_in_use == old(self).permits_in_use - (if holds_permit(
                old(self).downloads@[idx as int].status.state.spec_tag(),
            ) {
                1int
            } else {
                0int
            }) + (if holds_permit(new_state.spec_tag()) {
                1int
            } else {
                0int
            }),
    {
        let id = self.downloads[idx].status.id;
        let was = self.downloads[idx].status.state.tag();
        let now = new_state.tag();
        let old_state = self.downloads[idx].status.state.clone();
        let event_state = new_state.clone();
        let ghost d = ManagedDownload {
            status: DownloadStatus { state: new_state, ..self.downloads@[idx as int].status },
            phase: new_phase,
            has_task,
        };
        proof {
            lemma_permits_update(self.downloads@, idx as int, d);
            lemma_permits_bound(self.downloads@.update(idx as int, d));
        }
        self.downloads[idx].status.state = new_state;
        self.downloads[idx].phase = new_phase;
        self.downloads[idx].has_task = has_task;
        assert(self.downloads@ =~= old(self).downloads@.update(idx as int, d));
        proof {
            lemma_same_ids(old(self).downloads@, self.downloads@);
        }
        let was_in = match was {
            StateTag::Downloading | StateTag::Seeding => true,
            _ => false,
        };
        let is_in = match now {
            StateTag::Downloading | StateTag::Seeding => true,
            _ => false,
        };
        if was_in && !is_in {
            self.permits_in_use = self.permits_in_use - 1;
        } else if !was_in && is_in {
            self.permits_in_use = self.permits_in_use + 1;
        }
        DownloadEvent::StateChanged { id, old_state, new_state: event_state }
    }

    /// What the events of one step must keep: every state change is a step
    /// of the lifecycle table, every event is about download `id`, and the
    /// events continue the event order of the download from where it stood
    /// to where it stands.
    pub open spec fn emitted_ok(
        &self,
        after: DownloadEngine,
        id: DownloadId,
        events: Seq<DownloadEvent>,
    ) -> bool {
        &&& lawful(events)
        &&& all_about(events, id)
        &&& run_phases(self.phase_of(id), kinds_of(events)) == Some(after.phase_of(id))
    }

    /// Takes a new download in: it waits at the limiter, and its task is the
    /// caller's to start.
    fn register(&mut self, status: DownloadStatus) -> (events: Vec<DownloadEvent>)
        requires
            old(self).wf(),
            !old(self).contains(status.id),
            status.state == DownloadState::Connecting,
        ensures
            final(self).wf(),
            old(self).same_setup(*final(self)),
            final(self).permits_in_use == old(self).permits_in_use,
            final(self).downloads@ == old(self).downloads@.push(
                ManagedDownload { status, has_task: true, phase: EventPhase::Added },
            ),
            final(self).contains(status.id),
            events@.len() == 2,
            events@[0] == (DownloadEvent::Added { id: status.id }),
            is_state_change(events@[1], status.id, StateTag::Queued, StateTag::Connecting),
            old(self).emitted_ok(*final(self), status.id, events@),
    {
        let id = status.id;
        let record = ManagedDownload { status, has_task: true, phase: EventPhase::Added };
        let ghost before = self.downloads@;
        let place = self.downloads.len();
        self.downloads.push(record);
        self.index.insert(id.value, place);
        let count = self.downloads.len();
        proof {
            assert(count == before.len() + 1);
            lemma_index_grows(before, old(self).index@, self.downloads@.last());
        }
        let mut events: Vec<DownloadEvent> = Vec::new();
        events.push(DownloadEvent::Added { id });
        events.push(
            DownloadEvent::StateChanged {
                id,
                old_state: DownloadState::Queued,
                new_state: DownloadState::Connecting,
            },
        );
        proof {
            let after = self.downloads@;
            assert(after.drop_last() == before);
            assert(count_permits(after) == count_permits(before));
            assert forall|i: int, j: int|
                0 <= i < after.len() && 0 <= j < after.len() && i != j implies (
            #[trigger] after[i]).status.id != (#[trigger] after[j]).status.id by {
                if i < before.len() {
                    assert(before[i].status.id == after[i].status.id);
                }
                if j < before.len() {
                    assert(before[j].status.id == after[j].status.id);
                }
            }
            assert forall|i: int| 0 <= i < after.len() implies phase_matches(
                (#[trigger] after[i]).status.state.spec_tag(),
                after[i].phase,
            ) by {
                if i < before.len() {
                    assert(after[i] == before[i]);
                }
            }
            lemma_record_at(after, id, after.len() - 1);
            lemma_run2(None, EventKind::Added, EventKind::StateChanged);
            assert(kinds_of(events@) =~= seq![EventKind::Added, EventKind::StateChanged]);
        }
        events
    }

    /// What `add_http_parsed` makes of a request, or why it refuses it.
    pub open spec fn spec_add_refusal(
        &self,
        id: DownloadId,
        parsed: Result<UrlParts, String>,
    ) -> Option<EngineErrorView> {
        match parsed {
            Err(why) => Some(
                EngineErrorView::InvalidInput {
                    field: "url"@,
                    message: "Invalid URL: "@ + why@,
                },
            ),
            Ok(parts) => if !scheme_accepted(parts.scheme@) {
                Some(
                    EngineErrorView::InvalidInput {
                        field: "url"@,
                        message: "Unsupported scheme: "@ + parts.scheme@,
                    },
                )
            } else if self.contains(id) {
                Some(EngineErrorView::Internal("duplicate download id"@))
            } else {
                None
            },
        }
    }

    /// The status of a new HTTP download.
    pub open spec fn spec_new_http_status(
        &self,
        id: DownloadId,
        now: Timestamp,
        url: Seq<char>,
        last_segment: Option<Seq<char>>,
        options: DownloadOptions,
        status: DownloadStatus,
    ) -> bool {
        let filename = derived_filename(opt_view(options.filename), last_segment);
        &&& status.id == id
        &&& status.kind == DownloadKind::Http
        &&& status.state == DownloadState::Connecting
        &&& status.progress == DownloadProgress::spec_zero()
        &&& status.metadata@.name == match filename {
            Some(n) => n,
            None => "download"@,
        }
        &&& status.metadata@.url == Some(url)
        &&& status.metadata@.magnet_uri is None
        &&& status.metadata@.info_hash is None
        &&& status.metadata@.save_dir == match options.save_dir {
            Some(d) => d@,
            None => self.config.download_dir@,
        }
        &&& status.metadata@.filename == filename
        &&& status.metadata@.user_agent == opt_view(options.user_agent)
        &&& status.metadata@.referer == opt_view(options.referer)
        &&& status.metadata@.headers == pairs_view(options.headers@)
        &&& status.created_at == now
        &&& status.completed_at is None
        &&& status.torrent_info is None
        &&& status.peers is None
    }

    /// Registers an HTTP download whose URL the parser has read, under the
    /// id `id` at the time `now`. Only `http` and `https` are accepted. The
    /// new download waits at the limiter: the caller starts its task.
    pub fn add_http_parsed(
        &mut self,
        id: DownloadId,
        now: Timestamp,
        url: &str,
        parsed: Result<UrlParts, String>,
        options: DownloadOptions,
    ) -> (r: Result<Vec<DownloadEvent>, EngineError>)
        requires
            old(self).wf(),
        ensures
            final(self).wf(),
            old(self).within_limit() ==> final(self).within_limit(),
            match r {
                Err(e) => old(self).spec_add_refusal(id, parsed) == Some(e@) && *final(self)
                    == *old(self),
                Ok(events) => {
                    &&& old(self).spec_add_refusal(id, parsed) is None
                    &&& old(self).same_setup(*final(self))
                    &&& final(self).downloads@.len() == old(self).downloads@.len() + 1
                    &&& final(self).downloads@.drop_last() == old(self).downloads@
                    &&& old(self).spec_new_http_status(
                        id,
                        now,
                        url@,
                        opt_view(parsed->Ok_0.last_segment),
                        options,
                        final(self).downloads@.last().status,
                    )
                    &&& final(self).downloads@.last().has_task
                    &&& events@.len() == 2
                    &&& events@[0] == (DownloadEvent::Added { id })
                    &&& is_state_change(events@[1], id, StateTag::Queued, StateTag::Connecting)
                    &&& old(self).emitted_ok(*final(self), id, events@)
                },
            },
    {
        let parts = match parsed {
            Err(why) => {
                return Err(
                    EngineError::invalid_input("url", join2("Invalid URL: ", why.as_str())),
                );
            },
            Ok(p) => p,
        };
        let scheme = chars_of(parts.scheme.as_str());
        if !is_text(&scheme, "http") && !is_text(&scheme, "https") {
            return Err(
                EngineError::invalid_input(
                    "url",
                    join2("Unsupported scheme: ", parts.scheme.as_str()),
                ),
            );
        }
        if self.find_index(id).is_some() {
            return Err(EngineError::Internal(owned("duplicate download id")));
        }
        let save_dir = match &options.save_dir {
            Some(d) => d.clone(),
            None => self.config.download_dir.clone(),
        };
        let filename: Option<String> = match &options.filename {
            Some(n) => Some(n.clone()),
            None => match &parts.last_segment {
                Some(s) => if s.as_str().is_empty() {
                    None
                } else {
                    Some(s.clone())
                },
                None => None,
            },
        };
        let name = match &filename {
            Some(n) => n.clone(),
            None => owned("download"),
        };
        let status = DownloadStatus {
            id,
            kind: DownloadKind::Http,
            state: DownloadState::Connecting,
            progress: DownloadProgress::zero(),
            metadata: DownloadMetadata {
                name,
                url: Some(owned(url)),
                magnet_uri: None,
                info_hash: None,
                save_dir,
                filename,
                user_agent: clone_opt(&options.user_agent),
                referer: clone_opt(&options.referer),
                headers: clone_pairs(&options.headers),
            },
            created_at: now,
            completed_at: None,
            torrent_info: None,
            peers: None,
        };
        let events = self.register(status);
        Ok(events)
    }

    /// Why `add_http` refuses a URL whatever the id, if it does: the text
    /// is no URL, or its scheme is neither `http` nor `https`.
    pub open spec fn spec_url_refusal(url: Seq<char>) -> Option<EngineErrorView> {
        match url_error_of(url) {
            Some(why) => Some(
                EngineErrorView::InvalidInput {
                    field: "url"@,
                    message: "Invalid URL: "@ + why,
                },
            ),
            None => match url_scheme_of(url) {
                Some(scheme) => if scheme_accepted(scheme) {
                    None
                } else {
                    Some(
                        EngineErrorView::InvalidInput {
                            field: "url"@,
                            message: "Unsupported scheme: "@ + scheme,
                        },
                    )
                },
                None => None,
            },
        }
    }

    /// Registers an HTTP download. The URL is parsed, a fresh id is drawn
    /// and the clock is read; the rest is `add_http_parsed`. A URL that is
    /// refused is refused whatever the id; an accepted one fails only if
    /// the fresh id is taken already, which takes a download with an id of
    /// that kind.
    pub fn add_http(&mut self, url: &str, options: DownloadOptions) -> (r: Result<
        (DownloadId, Vec<DownloadEvent>),
        EngineError,
    >)
        requires
            old(self).wf(),
        ensures
            final(self).wf(),
            old(self).within_limit() ==> final(self).within_limit(),
            match r {
                Err(e) => {
                    &&& *final(self) == *old(self)
                    &&& match DownloadEngine::spec_url_refusal(url@) {
                        Some(refusal) => e@ == refusal,
                        None => e@ == EngineErrorView::Internal("duplicate download id"@)
                            && old(self).holds_random_id(),
                    }
                },
                Ok(added) => {
                    let id = added.0;
                    let last = final(self).downloads@.last();
                    &&& DownloadEngine::spec_url_refusal(url@) is None
                    &&& is_random_uuid(id.value)
                    &&& !old(self).contains(id)
                    &&& final(self).contains(id)
                    &&& old(self).same_setup(*final(self))
                    &&& final(self).downloads@.drop_last() == old(self).downloads@
                    &&& old(self).spec_new_http_status(
                        id,
                        last.status.created_at,
                        url@,
                        url_last_segment_of(url@),
                        options,
                        last.status,
                    )
                    &&& last.has_task
                    &&& added.1@.len() == 2
                    &&& added.1@[0] == (DownloadEvent::Added { id })
                    &&& is_state_change(added.1@[1], id, StateTag::Queued, StateTag::Connecting)
                    &&& old(self).emitted_ok(*final(self), id, added.1@)
                },
            },
            DownloadEngine::spec_url_refusal(url@) is None && !old(self).holds_random_id()
                ==> r is Ok,
    {
        let parsed: Result<UrlParts, String> = match url_parse_error(url) {
            Some(why) => Err(why),
            None => match url_scheme(url) {
                Some(scheme) => Ok(UrlParts { scheme, last_segment: url_last_segment(url) }),
                None => Err(String::new()),
            },
        };
        let id = DownloadId::new();
        let now = Timestamp::now();
        match self.add_http_parsed(id, now, url, parsed, options) {
            Ok(events) => {
                proof {
                    lemma_record_at(self.downloads@, id, self.downloads@.len() - 1);
                }
                Ok((id, events))
            },
            Err(e) => Err(e),
        }
    }

    /// The events of an admission: the change to `Downloading`, and
    /// `Started` behind it where the download has not started before. A
    /// resumed download starts only once.
    pub open spec fn admission_events(id: DownloadId, phase: EventPhase, events: Seq<DownloadEvent>)
        -> bool {
        &&& events.len() == if phase == EventPhase::Added {
            2int
        } else {
            1int
        }
        &&& is_state_change(events[0], id, StateTag::Connecting, StateTag::Downloading)
        &&& phase == EventPhase::Added ==> events[1] == (DownloadEvent::Started { id })
    }

    /// Asks the limiter for a permit for download `id`, which waits in
    /// `Connecting`. A permit is granted while fewer than
    /// `max_concurrent_downloads` are out; with it the download starts
    /// downloading.
    pub fn acquire_permit(&mut self, id: DownloadId) -> (r: Admission)
        requires
            old(self).wf(),
        ensures
            final(self).wf(),
            old(self).within_limit() ==> final(self).within_limit(),
            match r {
                Admission::NotWaiting => {
                    &&& !old(self).contains(id) || old(self).record(id).status.state.spec_tag()
                        != StateTag::Connecting
                    &&& *final(self) == *old(self)
                },
                Admission::Wait => {
                    &&& old(self).contains(id)
                    &&& old(self).record(id).status.state.spec_tag() == StateTag::Connecting
                    &&& old(self).permits_in_use >= old(self).config.max_concurrent_downloads
                    &&& *final(self) == *old(self)
                },
                Admission::Granted { events } => {
                    let idx = index_of(old(self).downloads@, id);
                    &&& old(self).contains(id)
                    &&& old(self).record(id).status.state.spec_tag() == StateTag::Connecting
                    &&& old(self).permits_in_use < old(self).config.max_concurrent_downloads
                    &&& final(self).permits_in_use == old(self).permits_in_use + 1
                    &&& final(self).within_limit()
                    &&& old(self).with_record(
                        idx,
                        ManagedDownload {
                            status: DownloadStatus {
                                state: DownloadState::Downloading,
                                ..old(self).record(id).status
                            },
                            phase: EventPhase::Running,
                            ..old(self).record(id)
                        },
                        *final(self),
                    )
                    &&& DownloadEngine::admission_events(id, old(self).record(id).phase, events@)
                    &&& old(self).emitted_ok(*final(self), id, events@)
                },
            },
    {
        let idx = match self.find_index(id) {
            Some(i) => i,
            None => {
                return Admission::NotWaiting;
            },
        };
        match self.downloads[idx].status.state.tag() {
            StateTag::Connecting => {},
            _ => {
                return Admission::NotWaiting;
            },
        }
        if self.permits_in_use >= self.config.max_concurrent_downloads {
            return Admission::Wait;
        }
        let first_start = match self.downloads[idx].phase {
            EventPhase::Added => true,
            _ => false,
        };
        let ghost phase = self.downloads@[idx as int].phase;
        let has_task = self.downloads[idx].has_task;
        let change = self.transition(
            idx,
            DownloadState::Downloading,
            EventPhase::Running,
            has_task,
        );
        let mut events: Vec<DownloadEvent> = Vec::new();
        events.push(change);
        proof {
            lemma_record_at(self.downloads@, id, idx as int);
        }
        if first_start {
            events.push(DownloadEvent::Started { id });
            proof {
                lemma_run2(Some(phase), EventKind::StateChanged, EventKind::Started);
                assert(kinds_of(events@) =~= seq![EventKind::StateChanged, EventKind::Started]);
            }
        } else {
            proof {
                lemma_run1(Some(phase), EventKind::StateChanged);
                assert(kinds_of(events@) =~= seq![EventKind::StateChanged]);
            }
        }
        Admission::Granted { events }
    }

    /// Takes in the progress that the task of download `id` reports. Only a
    /// download that is downloading has progress; anything else emits
    /// nothing and changes nothing.
    pub fn report_progress(&mut self, id: DownloadId, progress: DownloadProgress) -> (events: Vec<
        DownloadEvent,
    >)
        requires
            old(self).wf(),
        ensures
            final(self).wf(),
            old(self).within_limit() ==> final(self).within_limit(),
            old(self).emitted_ok(*final(self), id, events@),
            final(self).permits_in_use == old(self).permits_in_use,
            if old(self).contains(id) && old(self).record(id).status.state.spec_tag()
                == StateTag::Downloading {
                &&& events@ == seq![DownloadEvent::Progress { id, progress }]
                &&& old(self).with_record(
                    index_of(old(self).downloads@, id),
                    ManagedDownload {
                        status: DownloadStatus { progress, ..old(self).record(id).status },
                        ..old(self).record(id)
                    },
                    *final(self),
                )
            } else {
                events@.len() == 0 && *final(self) == *old(self)
            },
    {
        let mut events: Vec<DownloadEvent> = Vec::new();
        proof {
            assert(kinds_of(events@) =~= Seq::empty());
        }
        let idx = match self.find_index(id) {
            Some(i) => i,
            None => {
                return events;
            },
        };
        match self.downloads[idx].status.state.tag() {
            StateTag::Downloading => {},
            _ => {
                proof {
                    lemma_record_at(self.downloads@, id, idx as int);
                }
                return events;
            },
        }
        let ghost d = ManagedDownload {
            status: DownloadStatus { progress, ..self.downloads@[idx as int].status },
            ..self.downloads@[idx as int]
        };
        proof {
            lemma_permits_update(self.downloads@, idx as int, d);
        }
        self.downloads[idx].status.progress = progress;
        assert(self.downloads@ =~= old(self).downloads@.update(idx as int, d));
        events.push(DownloadEvent::Progress { id, progress });
        proof {
            lemma_record_at(self.downloads@, id, idx as int);
            lemma_run1(Some(EventPhase::Running), EventKind::Progress);
            assert(kinds_of(events@) =~= seq![EventKind::Progress]);
        }
        events
    }

    /// Pauses download `id`, which must be downloading; its permit goes
    /// back to the limiter. The caller signals the task.
    pub fn pause(&mut self, id: DownloadId) -> (r: Result<Vec<DownloadEvent>, EngineError>)
        requires
            old(self).wf(),
        ensures
            final(self).wf(),
            old(self).within_limit() ==> final(self).within_limit(),
            match r {
                Err(e) => {
                    &&& *final(self) == *old(self)
                    &&& e@ == if !old(self).contains(id) {
                        EngineErrorView::NotFound(canonical_uuid_text(id.value))
                    } else {
                        EngineErrorView::InvalidState {
                            action: "pause"@,
                            current_state: old(self).record(id).status.state.spec_tag().name(),
                        }
                    }
                    &&& !old(self).contains(id) || old(self).record(id).status.state.spec_tag()
                        != StateTag::Downloading
                },
                Ok(events) => {
                    &&& old(self).contains(id)
                    &&& old(self).record(id).status.state.spec_tag() == StateTag::Downloading
                    &&& old(self).with_record(
                        index_of(old(self).downloads@, id),
                        ManagedDownload {
                            status: DownloadStatus {
                                state: DownloadState::Paused,
                                ..old(self).record(id).status
                            },
                            has_task: false,
                            phase: EventPhase::Running,
                        },
                        *final(self),
                    )
                    &&& final(self).permits_in_use == old(self).permits_in_use - 1
                    &&& events@.len() == 2
                    &&& is_state_change(events@[0], id, StateTag::Downloading, StateTag::Paused)
                    &&& events@[1] == (DownloadEvent::Paused { id })
                    &&& old(self).emitted_ok(*final(self), id, events@)
                },
            },
    {
        let idx = match self.find_index(id) {
            Some(i) => i,
            None => {
                return Err(DownloadEngine::not_found(id));
            },
        };
        let tag = self.downloads[idx].status.state.tag();
        match tag {
            StateTag::Downloading => {},
            _ => {
                return Err(DownloadEngine::invalid_state("pause", tag));
            },
        }
        let change = self.transition(idx, DownloadState::Paused, EventPhase::Running, false);
        let mut events: Vec<DownloadEvent> = Vec::new();
        events.push(change);
        events.push(DownloadEvent::Paused { id });
        proof {
            lemma_record_at(self.downloads@, id, idx as int);
            lemma_run2(Some(EventPhase::Running), EventKind::StateChanged, EventKind::Paused);
            assert(kinds_of(events@) =~= seq![EventKind::StateChanged, EventKind::Paused]);
        }
        Ok(events)
    }

    /// Resumes download `id`, which must be paused: it waits at the limiter
    /// again, and the caller starts a new task for it.
    pub fn resume(&mut self, id: DownloadId) -> (r: Result<Vec<DownloadEvent>, EngineError>)
        requires
            old(self).wf(),
        ensures
            final(self).wf(),
            old(self).within_limit() ==> final(self).within_limit(),
            final(self).permits_in_use == old(self).permits_in_use,
            match r {
                Err(e) => {
                    &&& *final(self) == *old(self)
                    &&& e@ == if !old(self).contains(id) {
                        EngineErrorView::NotFound(canonical_uuid_text(id.value))
                    } else {
                        EngineErrorView::InvalidState {
                            action: "resume"@,
                            current_state: old(self).record(id).status.state.spec_tag().name(),
                        }
                    }
                    &&& !old(self).contains(id) || old(self).record(id).status.state.spec_tag()
                        != StateTag::Paused
                },
                Ok(events) => {
                    &&& old(self).contains(id)
                    &&& old(self).record(id).status.state.spec_tag() == StateTag::Paused
                    &&& old(self).with_record(
                        index_of(old(self).downloads@, id),
                        ManagedDownload {
                            status: DownloadStatus {
                                state: DownloadState::Connecting,
                                ..old(self).record(id).status
                            },
                            has_task: true,
                            phase: EventPhase::Running,
                        },
                        *final(self),
                    )
                    &&& events@.len() == 2
                    &&& is_state_change(events@[0], id, StateTag::Paused, StateTag::Connecting)
                    &&& events@[1] == (DownloadEvent::Resumed { id })
                    &&& old(self).emitted_ok(*final(self), id, events@)
                },
            },
    {
        let idx = match self.find_index(id) {
            Some(i) => i,
            None => {
                return Err(DownloadEngine::not_found(id));
            },
        };
        let tag = self.downloads[idx].status.state.tag();
        match tag {
            StateTag::Paused => {},
            _ => {
                return Err(DownloadEngine::invalid_state("resume", tag));
            },
        }
        let change = self.transition(idx, DownloadState::Connecting, EventPhase::Running, true);
        let mut events: Vec<DownloadEvent> = Vec::new();
        events.push(change);
        events.push(DownloadEvent::Resumed { id });
        proof {
            lemma_record_at(self.downloads@, id, idx as int);
            lemma_run2(Some(EventPhase::Running), EventKind::StateChanged, EventKind::Resumed);
            assert(kinds_of(events@) =~= seq![EventKind::StateChanged, EventKind::Resumed]);
        }
        Ok(events)
    }

    /// Removes download `id` from the coordinator. After this no step emits
    /// an event for the download. With `delete_files` the plan names the
    /// final file and the part file for deletion.
    pub fn cancel(&mut self, id: DownloadId, delete_files: bool) -> (r: Result<
        CancelPlan,
        EngineError,
    >)
        requires
            old(self).wf(),
        ensures
            final(self).wf(),
            old(self).within_limit() ==> final(self).within_limit(),
            !final(self).contains(id),
            match r {
                Err(e) => {
                    &&& !old(self).contains(id)
                    &&& *final(self) == *old(self)
                    &&& e@ == EngineErrorView::NotFound(canonical_uuid_text(id.value))
                },
                Ok(plan) => {
                    let idx = index_of(old(self).downloads@, id);
                    let gone = old(self).record(id);
                    let file = match gone.status.metadata.filename {
                        Some(n) => n@,
                        None => "download"@,
                    };
                    &&& old(self).contains(id)
                    &&& old(self).same_setup(*final(self))
                    &&& final(self).downloads@ == old(self).downloads@.remove(idx)
                    &&& final(self).permits_in_use == old(self).permits_in_use - if holds_permit(
                        gone.status.state.spec_tag(),
                    ) {
                        1int
                    } else {
                        0int
                    }
                    &&& plan.events@ == seq![DownloadEvent::Removed { id }]
                    &&& plan.cancel_task == gone.has_task
                    &&& plan.save_dir@ == gone.status.metadata.save_dir@
                    &&& crate::types::strings_view(plan.delete@) == if delete_files {
                        seq![file, file + ".part"@]
                    } else {
                        Seq::empty()
                    }
                    &&& old(self).emitted_ok(*final(self), id, plan.events@)
                },
            },
    {
        let idx = match self.find_index(id) {
            Some(i) => i,
            None => {
                return Err(DownloadEngine::not_found(id));
            },
        };
        let ghost before = self.downloads@;
        proof {
            lemma_record_at(before, id, idx as int);
            lemma_permits_remove(before, idx as int);
        }
        let gone = self.downloads.remove(idx);
        self.index = index_of_ids(&self.downloads);
        let held = match gone.status.state.tag() {
            StateTag::Downloading | StateTag::Seeding => true,
            _ => false,
        };
        if held {
            proof {
                lemma_permits_bound(before.remove(idx as int));
            }
            self.permits_in_use = self.permits_in_use - 1;
        }
        let mut delete: Vec<String> = Vec::new();
        if delete_files {
            let file = match &gone.status.metadata.filename {
                Some(n) => n.clone(),
                None => owned("download"),
            };
            let part = join2(file.as_str(), ".part");
            delete.push(file);
            delete.push(part);
        }
        let mut events: Vec<DownloadEvent> = Vec::new();
        events.push(DownloadEvent::Removed { id });
        proof {
            let after = self.downloads@;
            assert(after == before.remove(idx as int));
            assert forall|i: int| 0 <= i < after.len() implies (#[trigger] after[i]).status.id
                != id && phase_matches(after[i].status.state.spec_tag(), after[i].phase) by {
                if i < idx {
                    assert(after[i] == before[i]);
                } else {
                    assert(after[i] == before[i + 1]);
                }
            }
            assert forall|i: int, j: int|
                0 <= i < after.len() && 0 <= j < after.len() && i != j implies (
            #[trigger] after[i]).status.id != (#[trigger] after[j]).status.id by {
                let a = if i < idx {
                    i
                } else {
                    i + 1
                };
                let b = if j < idx {
                    j
                } else {
                    j + 1
                };
                assert(after[i] == before[a]);
                assert(after[j] == before[b]);
            }
            lemma_run1(Some(gone.phase), EventKind::Removed);
            assert(kinds_of(events@) =~= seq![EventKind::Removed]);
            assert(crate::types::strings_view(delete@) =~= if delete_files {
                seq![
                    match gone.status.metadata.filename {
                        Some(n) => n@,
                        None => "download"@,
                    },
                    (match gone.status.metadata.filename {
                        Some(n) => n@,
                        None => "download"@,
                    }) + ".part"@,
                ]
            } else {
                Seq::empty()
            });
        }
        Ok(
            CancelPlan {
                events,
                cancel_task: gone.has_task,
                save_dir: gone.status.metadata.save_dir.clone(),
                delete,
            },
        )
    }

    /// What `finish_task` does with download `idx` for each way a task can
    /// end: the kinds of the events it emits.
    pub open spec fn spec_finish_kinds(tag: StateTag, outcome: TaskOutcome) -> Seq<EventKind> {
        match outcome {
            TaskOutcome::Completed { .. } => if tag == StateTag::Downloading || tag
                == StateTag::Seeding {
                seq![EventKind::StateChanged, EventKind::Completed]
            } else {
                Seq::empty()
            },
            TaskOutcome::Seeding => if tag == StateTag::Downloading {
                seq![EventKind::StateChanged]
            } else {
                Seq::empty()
            },
            TaskOutcome::Failed(_) => if tag == StateTag::Downloading || tag
                == StateTag::Connecting {
                seq![EventKind::StateChanged, EventKind::Failed]
            } else {
                Seq::empty()
            },
            TaskOutcome::Cancelled => Seq::empty(),
        }
    }

    /// Takes in how the task of download `id` ended, at the time `now`. A
    /// finished download is `Completed`, a torrent that goes on seeding is
    /// `Seeding`, a failed one is in `Error` with the error's name, text and
    /// whether it may be retried. An outcome that the state of the download
    /// has no use for, and any outcome for an unknown download, emits
    /// nothing.
    pub fn finish_task(&mut self, id: DownloadId, outcome: TaskOutcome, now: Timestamp) -> (events:
        Vec<DownloadEvent>)
        requires
            old(self).wf(),
        ensures
            final(self).wf(),
            old(self).within_limit() ==> final(self).within_limit(),
            old(self).same_setup(*final(self)),
            old(self).emitted_ok(*final(self), id, events@),
            !old(self).contains(id) ==> events@.len() == 0 && *final(self) == *old(self),
            old(self).contains(id) ==> {
                let idx = index_of(old(self).downloads@, id);
                let was = old(self).record(id);
                let tag = was.status.state.spec_tag();
                let now_is = final(self).downloads@[idx];
                &&& kinds_of(events@) == DownloadEngine::spec_finish_kinds(tag, outcome)
                &&& final(self).downloads@ == old(self).downloads@.update(idx, now_is)
                &&& now_is.status.id == id
                &&& now_is.status.kind == was.status.kind
                &&& now_is.status.progress == was.status.progress
                &&& now_is.status.created_at == was.status.created_at
                &&& events@.len() == 0 ==> now_is.status == was.status && now_is.phase
                    == was.phase && now_is.has_task == (was.has_task && !(outcome is Cancelled))
                &&& events@.len() > 0 ==> match outcome {
                    TaskOutcome::Completed { filename } => {
                        &&& now_is.status.state == DownloadState::Completed
                        &&& now_is.status.completed_at == Some(now)
                        &&& now_is.status.metadata == (DownloadMetadata {
                            filename,
                            ..was.status.metadata
                        })
                        &&& !now_is.has_task
                        &&& is_state_change(events@[0], id, tag, StateTag::Completed)
                        &&& events@[1] == (DownloadEvent::Completed { id })
                    },
                    TaskOutcome::Seeding => {
                        &&& now_is.status.state == DownloadState::Seeding
                        &&& now_is.status.metadata == was.status.metadata
                        &&& now_is.has_task
                        &&& is_state_change(events@[0], id, tag, StateTag::Seeding)
                    },
                    TaskOutcome::Failed(e) => {
                        &&& now_is.status.state matches DownloadState::Error {
                            kind,
                            message,
                            retryable,
                        }
                        &&& kind@ == e@.kind_name()
                        &&& message@ == e@.describe()
                        &&& retryable == e@.is_retryable()
                        &&& now_is.status.metadata == was.status.metadata
                        &&& !now_is.has_task
                        &&& is_state_change(events@[0], id, tag, StateTag::Error)
                        &&& events@[1] matches DownloadEvent::Failed {
                            id: about,
                            error,
                            retryable: again,
                        }
                        &&& about == id
                        &&& error@ == e@.describe()
                        &&& again == e@.is_retryable()
                    },
                    TaskOutcome::Cancelled => false,
                }
            },
    {
        let mut events: Vec<DownloadEvent> = Vec::new();
        proof {
            assert(kinds_of(events@) =~= Seq::empty());
        }
        let idx = match self.find_index(id) {
            Some(i) => i,
            None => {
                return events;
            },
        };
        proof {
            lemma_record_at(self.downloads@, id, idx as int);
        }
        let tag = self.downloads[idx].status.state.tag();
        let ghost phase = self.downloads@[idx as int].phase;
        match outcome {
            TaskOutcome::Completed { filename } => {
                match tag {
                    StateTag::Downloading | StateTag::Seeding => {},
                    _ => {
                        assert(self.downloads@ =~= old(self).downloads@.update(
                            idx as int,
                            self.downloads@[idx as int],
                        ));
                        return events;
                    },
                }
                let change = self.transition(
                    idx,
                    DownloadState::Completed,
                    EventPhase::Finished,
                    false,
                );
                let ghost mid = self.downloads@;
                self.downloads[idx].status.completed_at = Some(now);
                self.downloads[idx].status.metadata.filename = filename;
                proof {
                    let d = self.downloads@[idx as int];
                    assert(self.downloads@ =~= mid.update(idx as int, d));
                    assert(self.downloads@ =~= old(self).downloads@.update(idx as int, d));
                    lemma_permits_update(mid, idx as int, d);
                    lemma_same_ids(mid, self.downloads@);
                    lemma_keeps_phases(mid, idx as int, d);
                }
                events.push(change);
                events.push(DownloadEvent::Completed { id });
                proof {
                    lemma_record_at(self.downloads@, id, idx as int);
                    lemma_run2(Some(phase), EventKind::StateChanged, EventKind::Completed);
                    assert(kinds_of(events@) =~= seq![
                        EventKind::StateChanged,
                        EventKind::Completed,
                    ]);
                }
            },
            TaskOutcome::Seeding => {
                match tag {
                    StateTag::Downloading => {},
                    _ => {
                        assert(self.downloads@ =~= old(self).downloads@.update(
                            idx as int,
                            self.downloads@[idx as int],
                        ));
                        return events;
                    },
                }
                let change = self.transition(
                    idx,
                    DownloadState::Seeding,
                    EventPhase::Running,
                    true,
                );
                events.push(change);
                proof {
                    lemma_record_at(self.downloads@, id, idx as int);
                    lemma_run1(Some(phase), EventKind::StateChanged);
                    assert(kinds_of(events@) =~= seq![EventKind::StateChanged]);
                }
            },
            TaskOutcome::Failed(e) => {
                match tag {
                    StateTag::Downloading | StateTag::Connecting => {},
                    _ => {
                        assert(self.downloads@ =~= old(self).downloads@.update(
                            idx as int,
                            self.downloads@[idx as int],
                        ));
                        return events;
                    },
                }
                let retryable = e.is_retryable();
                let text = e.describe();
                let state = DownloadState::Error {
                    kind: e.kind_name(),
                    message: text.clone(),
                    retryable,
                };
                let change = self.transition(idx, state, EventPhase::Finished, false);
                events.push(change);
                events.push(DownloadEvent::Failed { id, error: text, retryable });
                proof {
                    lemma_record_at(self.downloads@, id, idx as int);
                    lemma_run2(Some(phase), EventKind::StateChanged, EventKind::Failed);
                    assert(kinds_of(events@) =~= seq![EventKind::StateChanged, EventKind::Failed]);
                }
            },
            TaskOutcome::Cancelled => {
                let ghost before = self.downloads@;
                self.downloads[idx].has_task = false;
                proof {
                    let d = self.downloads@[idx as int];
                    assert(self.downloads@ =~= before.update(idx as int, d));
                    lemma_permits_update(before, idx as int, d);
                    lemma_same_ids(before, self.downloads@);
                    lemma_keeps_phases(before, idx as int, d);
                    lemma_record_at(self.downloads@, id, idx as int);
                }
            },
        }
        events
    }

    /// Registers a torrent whose file the parser has read, under the id
    /// `id` at the time `now`.
    pub fn add_torrent_parsed(
        &mut self,
        id: DownloadId,
        now: Timestamp,
        name: String,
        info_hash: String,
        options: DownloadOptions,
    ) -> (r: Result<Vec<DownloadEvent>, EngineError>)
        requires
            old(self).wf(),
        ensures
            final(self).wf(),
            old(self).within_limit() ==> final(self).within_limit(),
            r is Ok <==> !old(self).contains(id),
            r matches Err(e) ==> e@ == EngineErrorView::Internal("duplicate download id"@)
                && *final(self) == *old(self),
            r matches Ok(events) ==> {
                let status = final(self).downloads@.last().status;
                &&& old(self).same_setup(*final(self))
                &&& final(self).downloads@.len() == old(self).downloads@.len() + 1
                &&& final(self).downloads@.drop_last() == old(self).downloads@
                &&& status.id == id
                &&& status.kind == DownloadKind::Torrent
                &&& status.state == DownloadState::Connecting
                &&& status.metadata.name == name
                &&& status.metadata.info_hash == Some(info_hash)
                &&& status.metadata.url is None
                &&& status.metadata.magnet_uri is None
                &&& status.metadata@.save_dir == match options.save_dir {
                    Some(d) => d@,
                    None => old(self).config.download_dir@,
                }
                &&& status.created_at == now
                &&& old(self).emitted_ok(*final(self), id, events@)
            },
    {
        if self.find_index(id).is_some() {
            return Err(EngineError::Internal(owned("duplicate download id")));
        }
        let save_dir = match &options.save_dir {
            Some(d) => d.clone(),
            None => self.config.download_dir.clone(),
        };
        let status = DownloadStatus {
            id,
            kind: DownloadKind::Torrent,
            state: DownloadState::Connecting,
            progress: DownloadProgress::zero(),
            metadata: DownloadMetadata {
                name,
                url: None,
                magnet_uri: None,
                info_hash: Some(info_hash),
                save_dir,
                filename: None,
                user_agent: clone_opt(&options.user_agent),
                referer: clone_opt(&options.referer),
                headers: clone_pairs(&options.headers),
            },
            created_at: now,
            completed_at: None,
            torrent_info: None,
            peers: None,
        };
        let events = self.register(status);
        assert(self.downloads@.drop_last() == old(self).downloads@);
        Ok(events)
    }

    /// Registers a magnet link that the parser has read, under the id `id`
    /// at the time `now`.
    pub fn add_magnet_parsed(
        &mut self,
        id: DownloadId,
        now: Timestamp,
        uri: String,
        name: String,
        info_hash: String,
        options: DownloadOptions,
    ) -> (r: Result<Vec<DownloadEvent>, EngineError>)
        requires
            old(self).wf(),
        ensures
            final(self).wf(),
            old(self).within_limit() ==> final(self).within_limit(),
            r is Ok <==> !old(self).contains(id),
            r matches Err(e) ==> e@ == EngineErrorView::Internal("duplicate download id"@)
                && *final(self) == *old(self),
            r matches Ok(events) ==> {
                let status = final(self).downloads@.last().status;
                &&& old(self).same_setup(*final(self))
                &&& final(self).downloads@.len() == old(self).downloads@.len() + 1
                &&& final(self).downloads@.drop_last() == old(self).downloads@
                &&& status.id == id
                &&& status.kind == DownloadKind::Magnet
                &&& status.state == DownloadState::Connecting
                &&& status.metadata.name == name
                &&& status.metadata.info_hash == Some(info_hash)
                &&& status.metadata.url is None
                &&& status.metadata.magnet_uri == Some(uri)
                &&& status.metadata@.save_dir == match options.save_dir {
                    Some(d) => d@,
                    None => old(self).config.download_dir@,
                }
                &&& status.created_at == now
                &&& old(self).emitted_ok(*final(self), id, events@)
            },
    {
        if self.find_index(id).is_some() {
            return Err(EngineError::Internal(owned("duplicate download id")));
        }
        let save_dir = match &options.save_dir {
            Some(d) => d.clone(),
            None => self.config.download_dir.clone(),
        };
        let status = DownloadStatus {
            id,
            kind: DownloadKind::Magnet,
            state: DownloadState::Connecting,
            progress: DownloadProgress::zero(),
            metadata: DownloadMetadata {
                name,
                url: None,
                magnet_uri: Some(uri),
                info_hash: Some(info_hash),
                save_dir,
                filename: None,
                user_agent: clone_opt(&options.user_agent),
                referer: clone_opt(&options.referer),
                headers: clone_pairs(&options.headers),
            },
            created_at: now,
            completed_at: None,
            torrent_info: None,
            peers: None,
        };
        let events = self.register(status);
        assert(self.downloads@.drop_last() == old(self).downloads@);
        Ok(events)
    }

    /// Adds a torrent from the bytes of its file: the file is read, what it
    /// states is held against itself, a fresh id is drawn and the clock is
    /// read; the rest is `add_torrent_parsed`. The description is handed
    /// out for the task of the torrent. A file that is refused is refused
    /// whatever the id; an accepted one fails only if the fresh id is taken
    /// already, which takes a download with an id of that kind.
    pub fn add_torrent(&mut self, data: &Vec<u8>, options: DownloadOptions) -> (r: Result<
        TorrentAdded,
        EngineError,
    >)
        requires
            old(self).wf(),
        ensures
            final(self).wf(),
            old(self).within_limit() ==> final(self).within_limit(),
            match r {
                Err(e) => {
                    &&& *final(self) == *old(self)
                    &&& match spec_torrent_refusal(data@) {
                        Some(refusal) => e@ == refusal,
                        None => e@ == EngineErrorView::Internal("duplicate download id"@)
                            && old(self).holds_random_id(),
                    }
                },
                Ok(added) => {
                    let status = final(self).downloads@.last().status;
                    &&& spec_torrent_refusal(data@) is None
                    &&& is_random_uuid(added.id.value)
                    &&& describes(data@, added.metainfo)
                    &&& added.metainfo.wf()
                    &&& !old(self).contains(added.id)
                    &&& final(self).contains(added.id)
                    &&& old(self).same_setup(*final(self))
                    &&& final(self).downloads@.drop_last() == old(self).downloads@
                    &&& status.id == added.id
                    &&& status.kind == DownloadKind::Torrent
                    &&& status.state == DownloadState::Connecting
                    &&& status.metadata@.name == added.metainfo.info.name@
                    &&& status.metadata@.info_hash == Some(
                        hex_of_bytes(added.metainfo.info_hash@),
                    )
                    &&& status.metadata@.save_dir == match options.save_dir {
                        Some(d) => d@,
                        None => old(self).config.download_dir@,
                    }
                    &&& old(self).emitted_ok(*final(self), added.id, added.events@)
                },
            },
            spec_torrent_refusal(data@) is None && !old(self).holds_random_id() ==> r is Ok,
    {
        let metainfo = match parse_metainfo(data) {
            Ok(m) => m,
            Err(e) => {
                return Err(e);
            },
        };
        proof {
            lemma_described_consistent(data@, metainfo);
        }
        if !metainfo.is_consistent() {
            return Err(
                EngineError::invalid_input(
                    "torrent",
                    owned("Invalid torrent: files, piece length and piece hashes do not agree"),
                ),
            );
        }
        let id = DownloadId::new();
        let now = Timestamp::now();
        let name = metainfo.info.name.clone();
        let info_hash = hash_hex(&metainfo.info_hash);
        match self.add_torrent_parsed(id, now, name, info_hash, options) {
            Ok(events) => {
                proof {
                    lemma_record_at(self.downloads@, id, self.downloads@.len() - 1);
                }
                Ok(TorrentAdded { id, events, metainfo })
            },
            Err(e) => Err(e),
        }
    }

    /// Adds a magnet link: the link is read, a fresh id is drawn and the
    /// clock is read; the rest is `add_magnet_parsed`. The download is
    /// named as the link says, else by its info-hash.
    pub fn add_magnet(&mut self, uri: &str, options: DownloadOptions) -> (r: Result<
        MagnetAdded,
        EngineError,
    >)
        requires
            old(self).wf(),
        ensures
            final(self).wf(),
            old(self).within_limit() ==> final(self).within_limit(),
            match r {
                Err(e) => {
                    &&& *final(self) == *old(self)
                    &&& match magnet_refusal(uri@) {
                        Some(refusal) => e@ == refusal,
                        None => e@ == EngineErrorView::Internal("duplicate download id"@)
                            && old(self).holds_random_id(),
                    }
                },
                Ok(added) => {
                    let status = final(self).downloads@.last().status;
                    &&& magnet_refusal(uri@) is None
                    &&& spec_parse_magnet(uri@) == Some(added.magnet.parts())
                    &&& is_random_uuid(added.id.value)
                    &&& !old(self).contains(added.id)
                    &&& final(self).contains(added.id)
                    &&& old(self).same_setup(*final(self))
                    &&& final(self).downloads@.drop_last() == old(self).downloads@
                    &&& status.id == added.id
                    &&& status.kind == DownloadKind::Magnet
                    &&& status.state == DownloadState::Connecting
                    &&& status.metadata@.name == match added.magnet.display_name {
                        Some(n) => n@,
                        None => hex_of_bytes(added.magnet.info_hash@),
                    }
                    &&& status.metadata@.info_hash == Some(hex_of_bytes(added.magnet.info_hash@))
                    &&& status.metadata@.magnet_uri == Some(uri@)
                    &&& status.metadata@.save_dir == match options.save_dir {
                        Some(d) => d@,
                        None => old(self).config.download_dir@,
                    }
                    &&& old(self).emitted_ok(*final(self), added.id, added.events@)
                },
            },
            magnet_refusal(uri@) is None && !old(self).holds_random_id() ==> r is Ok,
    {
        let magnet = match parse_magnet(uri) {
            Ok(m) => m,
            Err(e) => {
                return Err(e);
            },
        };
        let id = DownloadId::new();
        let now = Timestamp::now();
        let name = magnet.name();
        let info_hash = hash_hex(&magnet.info_hash);
        match self.add_magnet_parsed(id, now, owned(uri), name, info_hash, options) {
            Ok(events) => {
                proof {
                    lemma_record_at(self.downloads@, id, self.downloads@.len() - 1);
                }
                Ok(MagnetAdded { id, events, magnet })
            },
            Err(e) => Err(e),
        }
    }

    /// The status of download `id`.
    pub fn status(&self, id: DownloadId) -> (r: Option<DownloadStatus>)
        requires
            self.wf(),
        ensures
            r is Some <==> self.contains(id),
            r matches Some(s) ==> s@ == self.record(id).status@,
    {
        match self.find_index(id) {
            Some(i) => Some(self.downloads[i].status.clone()),
            None => None,
        }
    }

    /// The statuses of the downloads whose state is in `group`, in the
    /// order the downloads were added.
    pub fn collect(&self, group: StatusGroup) -> (r: Vec<DownloadStatus>)
        ensures
            status_views(r@) == statuses_in(self.downloads@, group),
    {
        let mut out: Vec<DownloadStatus> = Vec::new();
        let mut i: usize = 0;
        assert(status_views(out@) =~= Seq::empty());
        while i < self.downloads.len()
            invariant
                i <= self.downloads.len(),
                status_views(out@) == statuses_in(self.downloads@.take(i as int), group),
            decreases self.downloads.len() - i,
        {
            let d = &self.downloads[i];
            proof {
                assert(self.downloads@.take(i + 1).drop_last() == self.downloads@.take(i as int));
                assert(self.downloads@.take(i + 1).last() == *d);
            }
            if group.holds(d.status.state.tag()) {
                let copy = d.status.clone();
                let ghost before = out@;
                out.push(copy);
                assert(status_views(out@) =~= status_views(before).push(copy@));
            }
            i += 1;
        }
        assert(self.downloads@.take(self.downloads.len() as int) == self.downloads@);
        out
    }

    /// All downloads.
    pub fn list(&self) -> (r: Vec<DownloadStatus>)
        ensures
            status_views(r@) == statuses_in(self.downloads@, StatusGroup::All),
    {
        self.collect(StatusGroup::All)
    }

    /// The downloads that a task is at work on.
    pub fn active(&self) -> (r: Vec<DownloadStatus>)
        ensures
            status_views(r@) == statuses_in(self.downloads@, StatusGroup::Active),
    {
        self.collect(StatusGroup::Active)
    }

    /// The downloads that are queued.
    pub fn waiting(&self) -> (r: Vec<DownloadStatus>)
        ensures
            status_views(r@) == statuses_in(self.downloads@, StatusGroup::Waiting),
    {
        self.collect(StatusGroup::Waiting)
    }

    /// The downloads that are paused, completed or failed.
    pub fn stopped(&self) -> (r: Vec<DownloadStatus>)
        ensures
            status_views(r@) == statuses_in(self.downloads@, StatusGroup::Stopped),
    {
        self.collect(StatusGroup::Stopped)
    }

    /// Totals over all downloads: how many are active, waiting and stopped,
    /// and the speeds of the active ones added up, kept within `u64`.
    pub fn global_stats(&self) -> (r: GlobalStats)
        ensures
            r == spec_global_stats(self.downloads@),
    {
        let mut stats = GlobalStats {
            download_speed: 0,
            upload_speed: 0,
            num_active: 0,
            num_waiting: 0,
            num_stopped: 0,
        };
        let mut i: usize = 0;
        while i < self.downloads.len()
            invariant
                i <= self.downloads.len(),
                stats == spec_global_stats(self.downloads@.take(i as int)),
                stats.num_active + stats.num_waiting + stats.num_stopped <= i,
            decreases self.downloads.len() - i,
        {
            let d = &self.downloads[i];
            proof {
                assert(self.downloads@.take(i + 1).drop_last() == self.downloads@.take(i as int));
                assert(self.downloads@.take(i + 1).last() == *d);
            }
            let tag = d.status.state.tag();
            if tag.is_active() {
                stats.num_active = stats.num_active + 1;
                stats.download_speed = stats.download_speed.saturating_add(
                    d.status.progress.download_speed,
                );
                stats.upload_speed = stats.upload_speed.saturating_add(
                    d.status.progress.upload_speed,
                );
            } else if tag.is_stopped() {
                stats.num_stopped = stats.num_stopped + 1;
            } else {
                stats.num_waiting = stats.num_waiting + 1;
            }
            i += 1;
        }
        assert(self.downloads@.take(self.downloads.len() as int) == self.downloads@);
        stats
    }

    /// Replaces the configuration if the new one is valid. The downloads
    /// that hold a permit keep it, also where `max_concurrent_downloads`
    /// is lowered below their number: the new limit holds for every permit
    /// that is asked for from now on.
    pub fn set_config(&mut self, config: EngineConfig, dir: DirProbe) -> (r: Result<
        (),
        EngineError,
    >)
        ensures
            match r {
                Ok(_) => first_violation(config, dir) is None && *final(self) == (DownloadEngine {
                    config,
                    ..*old(self)
                }),
                Err(e) => first_violation(config, dir) == Some(e@) && *final(self) == *old(self),
            },
            old(self).wf() ==> final(self).wf(),
            old(self).within_limit() && (r is Err || old(self).permits_in_use
                <= config.max_concurrent_downloads) ==> final(self).within_limit(),
    {
        match config.validate(dir) {
            Err(e) => Err(e),
            Ok(_) => {
                self.config = config;
                Ok(())
            },
        }
    }

    /// A copy of the configuration in use, field by field.
    pub fn get_full_config(&self) -> (r: EngineConfig)
        ensures
            r.download_dir == self.config.download_dir,
            r.max_concurrent_downloads == self.config.max_concurrent_downloads,
            r.max_connections_per_download == self.config.max_connections_per_download,
            r.min_segment_size == self.config.min_segment_size,
            r.global_download_limit == self.config.global_download_limit,
            r.global_upload_limit == self.config.global_upload_limit,
            r.user_agent == self.config.user_agent,
            r.enable_dht == self.config.enable_dht,
            r.enable_pex == self.config.enable_pex,
            r.enable_lpd == self.config.enable_lpd,
            r.max_peers == self.config.max_peers,
            r.seed_ratio_permille == self.config.seed_ratio_permille,
            r.database_path == self.config.database_path,
            r.http == self.config.http,
            r.torrent.listen_port_range == self.config.torrent.listen_port_range,
            r.torrent.dht_bootstrap_nodes@ == self.config.torrent.dht_bootstrap_nodes@,
            r.torrent.tracker_update_interval == self.config.torrent.tracker_update_interval,
            r.torrent.peer_timeout == self.config.torrent.peer_timeout,
            r.torrent.max_pending_requests == self.config.torrent.max_pending_requests,
            r.torrent.enable_endgame == self.config.torrent.enable_endgame,
            r.torrent.allocation_mode == self.config.torrent.allocation_mode,
            r.limits_ok() == self.config.limits_ok(),
    {
        self.config.clone()
    }

    /// The configuration in use.
    pub fn get_config(&self) -> (r: EngineConfig)
        ensures
            r.download_dir == self.config.download_dir,
            r.max_concurrent_downloads == self.config.max_concurrent_downloads,
            r.max_connections_per_download == self.config.max_connections_per_download,
            r.min_segment_size == self.config.min_segment_size,
            r.user_agent == self.config.user_agent,
            r.http == self.config.http,
            r.limits_ok() == self.config.limits_ok(),
    {
        self.config.clone()
    }

    /// Begins the shutdown: every download loses its task, and the ids of
    /// those that had one are handed out, for the caller to signal the
    /// tasks and to wait `SHUTDOWN_TIMEOUT_SECS` for each. No state
    /// changes, so that the list of downloads is the final projection to
    /// persist.
    pub fn shutdown(&mut self) -> (r: Vec<DownloadId>)
        requires
            old(self).wf(),
        ensures
            final(self).wf(),
            old(self).within_limit() ==> final(self).within_limit(),
            final(self).shutting_down,
            final(self).config == old(self).config,
            final(self).permits_in_use == old(self).permits_in_use,
            r@ == task_ids(old(self).downloads@),
            final(self).downloads@.len() == old(self).downloads@.len(),
            forall|i: int|
                0 <= i < old(self).downloads@.len() ==> (#[trigger] final(self).downloads@[i])
                    == (ManagedDownload { has_task: false, ..old(self).downloads@[i] }),
    {
        self.shutting_down = true;
        let mut ids: Vec<DownloadId> = Vec::new();
        let n = self.downloads.len();
        let mut i: usize = 0;
        while i < n
            invariant
                i <= n,
                n == self.downloads.len(),
                n == old(self).downloads.len(),
                self.shutting_down,
                self.config == old(self).config,
                self.index == old(self).index,
                self.permits_in_use == old(self).permits_in_use,
                ids@ == task_ids(old(self).downloads@.take(i as int)),
                count_permits(self.downloads@) == count_permits(old(self).downloads@),
                forall|j: int|
                    0 <= j < i ==> (#[trigger] self.downloads@[j]) == (ManagedDownload {
                        has_task: false,
                        ..old(self).downloads@[j]
                    }),
                forall|j: int| i <= j < n ==> (#[trigger] self.downloads@[j]) == old(self).downloads@[j],
            decreases n - i,
        {
            proof {
                let all = old(self).downloads@;
                assert(all.take(i + 1).drop_last() == all.take(i as int));
                assert(all.take(i + 1).last() == all[i as int]);
            }
            if self.downloads[i].has_task {
                ids.push(self.downloads[i].status.id);
            }
            let ghost before = self.downloads@;
            self.downloads[i].has_task = false;
            proof {
                let d = self.downloads@[i as int];
                assert(self.downloads@ =~= before.update(i as int, d));
                lemma_permits_update(before, i as int, d);
            }
            i += 1;
        }
        proof {
            assert(old(self).downloads@.take(n as int) == old(self).downloads@);
            lemma_same_ids(old(self).downloads@, self.downloads@);
        }
        ids
    }
}

/// Where ids are unique, the index of a download is the one at which its id
/// stands.
pub proof fn lemma_record_at(ds: Seq<ManagedDownload>, id: DownloadId, i: int)
    requires
        ids_unique(ds),
        0 <= i < ds.len(),
        ds[i].status.id == id,
    ensures
        contains_id(ds, id),
        index_of(ds, id) == i,
{
    let k = index_of(ds, id);
    assert(0 <= k < ds.len() && ds[k].status.id == id);
}

/// Two lists with the same ids at the same places are both unique or
/// neither, and an index of the one is an index of the other.
pub proof fn lemma_same_ids(a: Seq<ManagedDownload>, b: Seq<ManagedDownload>)
    requires
        a.len() == b.len(),
        forall|i: int| 0 <= i < a.len() ==> (#[trigger] a[i]).status.id == b[i].status.id,
        ids_unique(a),
    ensures
        ids_unique(b),
        forall|index: Map<u128, usize>| indexed(a, index) ==> #[trigger] indexed(b, index),
{
    assert forall|i: int, j: int| 0 <= i < b.len() && 0 <= j < b.len() && i != j implies (
    #[trigger] b[i]).status.id != (#[trigger] b[j]).status.id by {
        assert(a[i].status.id == b[i].status.id);
        assert(a[j].status.id == b[j].status.id);
    }
    assert forall|index: Map<u128, usize>| indexed(a, index) implies #[trigger] indexed(
        b,
        index,
    ) by {
        assert forall|i: int| 0 <= i < b.len() implies index.contains_key(
            (#[trigger] b[i]).status.id.value,
        ) && index[b[i].status.id.value] == i by {
            assert(a[i].status.id == b[i].status.id);
        }
        assert forall|k: u128| #[trigger] index.contains_key(k) implies index[k] < b.len()
            && b[index[k] as int].status.id.value == k by {
            assert(a[index[k] as int].status.id == b[index[k] as int].status.id);
        }
    }
}

/// The index of a list with one more download at its end, under an id
/// that is new.
pub proof fn lemma_index_grows(ds: Seq<ManagedDownload>, index: Map<u128, usize>, d: ManagedDownload)
    requires
        indexed(ds, index),
        !contains_id(ds, d.status.id),
        ds.len() < usize::MAX,
    ensures
        indexed(ds.push(d), index.insert(d.status.id.value, ds.len() as usize)),
{
    let after = ds.push(d);
    let grown = index.insert(d.status.id.value, ds.len() as usize);
    if index.contains_key(d.status.id.value) {
        let at = index[d.status.id.value] as int;
        assert(ds[at].status.id == d.status.id);
    }
    assert forall|i: int| 0 <= i < after.len() implies grown.contains_key(
        (#[trigger] after[i]).status.id.value,
    ) && grown[after[i].status.id.value] == i by {
        if i < ds.len() {
            assert(after[i] == ds[i]);
            assert(ds[i].status.id != d.status.id);
        }
    }
    assert forall|k: u128| #[trigger] grown.contains_key(k) implies grown[k] < after.len()
        && after[grown[k] as int].status.id.value == k by {
        if k != d.status.id.value {
            assert(index.contains_key(k));
            assert(after[index[k] as int] == ds[index[k] as int]);
        }
    }
}

pub proof fn lemma_run1(p: Option<EventPhase>, k0: EventKind)
    ensures
        run_phases(p, seq![k0]) == phase_step(p, k0),
{
    reveal_with_fuel(run_phases, 3);
    assert(seq![k0].drop_last() =~= Seq::<EventKind>::empty());
}

pub proof fn lemma_run2(p: Option<EventPhase>, k0: EventKind, k1: EventKind)
    ensures
        run_phases(p, seq![k0, k1]) == match phase_step(p, k0) {
            Some(q) => phase_step(q, k1),
            None => None,
        },
{
    lemma_run1(p, k0);
    assert(seq![k0, k1].drop_last() =~= seq![k0]);
}

/// A group of download states.
#[derive(Clone, Copy, Debug, PartialEq, Eq, Structural)]
pub enum StatusGroup {
    All,
    /// Connecting, downloading or seeding.
    Active,
    /// Queued.
    Waiting,
    /// Paused, completed or failed.
    Stopped,
}

impl StatusGroup {
    pub open spec fn spec_holds(self, tag: StateTag) -> bool {
        match self {
            StatusGroup::All => true,
            StatusGroup::Active => tag.spec_is_active(),
            StatusGroup::Waiting => tag == StateTag::Queued,
            StatusGroup::Stopped => tag.spec_is_stopped(),
        }
    }

    /// Whether a state belongs to the group.
    #[verifier::when_used_as_spec(spec_holds)]
    pub fn holds(self, tag: StateTag) -> (r: bool)
        ensures
            r == self.spec_holds(tag),
    {
        match self {
            StatusGroup::All => true,
            StatusGroup::Active => tag.is_active(),
            StatusGroup::Waiting => match tag {
                StateTag::Queued => true,
                _ => false,
            },
            StatusGroup::Stopped => tag.is_stopped(),
        }
    }
}

/// The views of a list of statuses.
pub open spec fn status_views(s: Seq<DownloadStatus>) -> Seq<DownloadStatusView> {
    s.map_values(|d: DownloadStatus| d@)
}

/// The statuses of the downloads whose state is in `group`, in order.
pub open spec fn statuses_in(ds: Seq<ManagedDownload>, group: StatusGroup) -> Seq<
    DownloadStatusView,
>
    decreases ds.len(),
{
    if ds.len() == 0 {
        Seq::empty()
    } else if group.spec_holds(ds.last().status.state.spec_tag()) {
        statuses_in(ds.drop_last(), group).push(ds.last().status@)
    } else {
        statuses_in(ds.drop_last(), group)
    }
}

/// The sum of two speeds, kept within `u64`.
pub open spec fn speed_sum(a: u64, b: u64) -> u64 {
    if a + b > u64::MAX {
        u64::MAX
    } else {
        (a + b) as u64
    }
}

/// Totals over a list of downloads.
pub open spec fn spec_global_stats(ds: Seq<ManagedDownload>) -> GlobalStats
    decreases ds.len(),
{
    if ds.len() == 0 {
        GlobalStats {
            download_speed: 0,
            upload_speed: 0,
            num_active: 0,
            num_waiting: 0,
            num_stopped: 0,
        }
    } else {
        let rest = spec_global_stats(ds.drop_last());
        let last = ds.last().status;
        let tag = last.state.spec_tag();
        if tag.spec_is_active() {
            GlobalStats {
                download_speed: speed_sum(rest.download_speed, last.progress.download_speed),
                upload_speed: speed_sum(rest.upload_speed, last.progress.upload_speed),
                num_active: (rest.num_active + 1) as usize,
                ..rest
            }
        } else if tag.spec_is_stopped() {
            GlobalStats { num_stopped: (rest.num_stopped + 1) as usize, ..rest }
        } else {
            GlobalStats { num_waiting: (rest.num_waiting + 1) as usize, ..rest }
        }
    }
}

/// The ids of the downloads that have a task, in order.
pub open spec fn task_ids(ds: Seq<ManagedDownload>) -> Seq<DownloadId>
    decreases ds.len(),
{
    if ds.len() == 0 {
        Seq::empty()
    } else if ds.last().has_task {
        task_ids(ds.drop_last()).push(ds.last().status.id)
    } else {
        task_ids(ds.drop_last())
    }
}

/// Replacing a download by one whose state fits its phase keeps every
/// download at a stage that fits its state.
pub proof fn lemma_keeps_phases(ds: Seq<ManagedDownload>, i: int, d: ManagedDownload)
    requires
        0 <= i < ds.len(),
        forall|k: int|
            0 <= k < ds.len() ==> phase_matches(
                (#[trigger] ds[k]).status.state.spec_tag(),
                ds[k].phase,
            ),
        phase_matches(d.status.state.spec_tag(), d.phase),
    ensures
        forall|k: int|
            0 <= k < ds.len() ==> phase_matches(
                (#[trigger] ds.update(i, d)[k]).status.state.spec_tag(),
                ds.update(i, d)[k].phase,
            ),
{
    assert forall|k: int| 0 <= k < ds.len() implies phase_matches(
        (#[trigger] ds.update(i, d)[k]).status.state.spec_tag(),
        ds.update(i, d)[k].phase,
    ) by {
        if k != i {
            assert(ds.update(i, d)[k] == ds[k]);
        }
    }
}

// ---------------------------------------------------------------------------
// Laws of the coordinator
// ---------------------------------------------------------------------------

/// The downloads that hold a permit, which are the downloading and the
/// seeding ones, are never more than `max_concurrent_downloads` in an
/// engine that is within its limit. A new engine is, every step keeps an
/// engine so, and admission, the one step that lets a permit out, does so
/// only below the limit. An engine leaves its limit only where
/// `set_config` lowers the limit below the number of permits that are out,
/// and is back within it, for good, once enough of them have come back.
pub proof fn lemma_admission_bound(engine: DownloadEngine)
    requires
        engine.wf(),
        engine.within_limit(),
    ensures
        engine.active_count() <= engine.config.max_concurrent_downloads,
{
}

/// The place of an event kind in the creation order of a download's
/// events; state changes and removals have none.
pub open spec fn rank(kind: EventKind) -> Option<int> {
    match kind {
        EventKind::Added => Some(0),
        EventKind::Started => Some(1),
        EventKind::Progress => Some(2),
        EventKind::Paused => Some(2),
        EventKind::Resumed => Some(2),
        EventKind::Completed => Some(3),
        EventKind::Failed => Some(3),
        EventKind::StateChanged => None,
        EventKind::Removed => None,
    }
}

/// The events of the trace stand in the creation order
/// `Added ≺ Started ≺ (Progress | Paused | Resumed)* ≺ (Completed | Failed)?`.
pub open spec fn in_creation_order(trace: Seq<EventKind>) -> bool {
    forall|i: int, j: int|
        0 <= i < j < trace.len() && rank(#[trigger] trace[i]) is Some && rank(
            #[trigger] trace[j],
        ) is Some ==> rank(trace[i])->0 < rank(trace[j])->0 || (rank(trace[i]) == Some(2int)
            && rank(trace[j]) == Some(2int))
}

/// The highest rank that an event of a download at the given stage can
/// have had.
pub open spec fn phase_bound(phase: Option<EventPhase>) -> int {
    match phase {
        None => -1,
        Some(EventPhase::Added) => 0,
        Some(EventPhase::Running) => 2,
        Some(EventPhase::Finished) => 3,
    }
}

/// The events that the coordinator emits for one download, from the one
/// that adds it on, stand in the creation order, as long as the download
/// is not removed: pauses and resumes included, since a resumed download
/// does not start a second time.
pub proof fn lemma_event_order(trace: Seq<EventKind>)
    requires
        run_phases(None, trace) is Some,
        !trace.contains(EventKind::Removed),
    ensures
        in_creation_order(trace),
        forall|i: int|
            0 <= i < trace.len() && rank(#[trigger] trace[i]) is Some ==> rank(trace[i])->0
                <= phase_bound(run_phases(None, trace)->0),
    decreases trace.len(),
{
    if trace.len() > 0 {
        let rest = trace.drop_last();
        let last = trace.last();
        assert(run_phases(None, rest) is Some);
        assert forall|k: EventKind| rest.contains(k) implies trace.contains(k) by {
            let i = choose|i: int| 0 <= i < rest.len() && rest[i] == k;
            assert(trace[i] == k);
        }
        lemma_event_order(rest);
        let before = run_phases(None, rest)->0;
        assert(trace[trace.len() - 1] == last);
        assert(last != EventKind::Removed);
        assert forall|i: int, j: int|
            0 <= i < j < trace.len() && rank(#[trigger] trace[i]) is Some && rank(
                #[trigger] trace[j],
            ) is Some implies rank(trace[i])->0 < rank(trace[j])->0 || (rank(trace[i]) == Some(
            2int,
        ) && rank(trace[j]) == Some(2int)) by {
            assert(trace[i] == rest[i]);
            if j < rest.len() {
                assert(trace[j] == rest[j]);
            }
        }
        assert forall|i: int|
            0 <= i < trace.len() && rank(#[trigger] trace[i]) is Some implies rank(trace[i])->0
                <= phase_bound(run_phases(None, trace)->0) by {
            if i < rest.len() {
                assert(trace[i] == rest[i]);
            }
        }
    }
}

/// A step that continues the event order of a download that the engine
/// does not hold emits nothing, or adds the download first: once a
/// download is cancelled, no event but that of a new download under its id
/// is about it.
pub proof fn lemma_unknown_emits_nothing(kinds: Seq<EventKind>)
    requires
        run_phases(None, kinds) is Some,
        kinds.len() > 0,
    ensures
        kinds[0] == EventKind::Added,
    decreases kinds.len(),
{
    if kinds.len() == 1 {
        assert(kinds.drop_last() =~= Seq::<EventKind>::empty());
    } else {
        lemma_unknown_emits_nothing(kinds.drop_last());
        assert(kinds.drop_last()[0] == kinds[0]);
    }
}

} // verus!
