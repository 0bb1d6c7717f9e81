//! The list of public trackers that is fetched once a day.

use crate::text::{
    chars_of, join_with, joined, rows_view, spec_split, split_on, string_of, trim, trimmed,
};
use crate::types::{clone_strings, strings_view, Timestamp};
use vstd::prelude::*;

verus! {

/// Where the list of trackers is fetched from.
pub const TRACKER_LIST_URL: &'static str =
    "https://raw.githubusercontent.com/ngosang/trackerslist/master/trackers_best.txt";

/// Hours after which the list is fetched again.
pub const UPDATE_AFTER_HOURS: u32 = 24;

/// The list of trackers and when it was fetched.
#[derive(Debug)]
pub struct TrackerUpdater {
    pub last_update: Option<Timestamp>,
    pub trackers: Vec<String>,
}

/// The lines among `parts` that hold more than white space, trimmed.
pub open spec fn tracker_lines(parts: Seq<Seq<char>>) -> Seq<Seq<char>>
    decreases parts.len(),
{
    if parts.len() == 0 {
        Seq::empty()
    } else if trimmed(parts.last()).len() > 0 {
        tracker_lines(parts.drop_last()).push(trimmed(parts.last()))
    } else {
        tracker_lines(parts.drop_last())
    }
}

/// The trackers that a fetched text lists: one on each line that is not
/// blank.
pub open spec fn spec_parse_trackers(text: Seq<char>) -> Seq<Seq<char>> {
    tracker_lines(spec_split(text, '\n'))
}

/// The trackers that a fetched text lists.
pub fn parse_trackers(text: &str) -> (r: Vec<String>)
    ensures
        strings_view(r@) == spec_parse_trackers(text@),
{
    let parts = split_on(&chars_of(text), '\n');
    let mut out: Vec<String> = Vec::new();
    let mut i: usize = 0;
    assert(strings_view(out@) =~= Seq::empty());
    assert(rows_view(parts@.take(0)) =~= Seq::empty());
    while i < parts.len()
        invariant
            i <= parts.len(),
            strings_view(out@) == tracker_lines(rows_view(parts@.take(i as int))),
        decreases parts.len() - i,
    {
        proof {
            let now = rows_view(parts@.take(i + 1));
            assert(now.drop_last() =~= rows_view(parts@.take(i as int)));
            assert(now.last() == parts@[i as int]@);
        }
        let line = trim(&parts[i]);
        if line.len() > 0 {
            let ghost before = strings_view(out@);
            out.push(string_of(&line));
            assert(strings_view(out@) =~= before.push(line@));
        }
        i += 1;
    }
    assert(parts@.take(parts.len() as int) == parts@);
    out
}

impl TrackerUpdater {
    /// An updater that has fetched nothing yet.
    pub fn new() -> (u: TrackerUpdater)
        ensures
            u.last_update is None,
            u.trackers@.len() == 0,
    {
        TrackerUpdater { last_update: None, trackers: Vec::new() }
    }

    /// Whether the list is to be fetched at `now`: it never was, or that
    /// was 24 hours ago or more.
    pub open spec fn spec_needs_update(&self, now: Timestamp) -> bool {
        match self.last_update {
            None => true,
            Some(last) => now.spec_hours_since(last) >= UPDATE_AFTER_HOURS,
        }
    }

    /// Whether the list is to be fetched at `now`.
    pub fn needs_update_at(&self, now: &Timestamp) -> (r: bool)
        ensures
            r == self.spec_needs_update(*now),
    {
        match &self.last_update {
            None => true,
            Some(last) => now.at_least_hours_after(last, UPDATE_AFTER_HOURS),
        }
    }

    /// Whether the list is to be fetched now: what `needs_update_at` says
    /// for the reading of the clock. A list that was never fetched is
    /// always to be fetched.
    pub fn needs_update(&self) -> (r: bool)
        ensures
            exists|now: Timestamp|
                now.secs >= 0 && now.nanos < 1_000_000_000 && r == #[trigger] self.spec_needs_update(
                    now,
                ),
            self.last_update is None ==> r,
    {
        let now = Timestamp::now();
        self.needs_update_at(&now)
    }

    /// Takes the text that was fetched at `now` as the new list.
    pub fn store_fetched(&mut self, text: &str, now: Timestamp) -> (r: Vec<String>)
        ensures
            strings_view(r@) == spec_parse_trackers(text@),
            strings_view(final(self).trackers@) == spec_parse_trackers(text@),
            final(self).last_update == Some(now),
    {
        let trackers = parse_trackers(text);
        self.trackers = clone_strings(&trackers);
        self.last_update = Some(now);
        trackers
    }

    /// The trackers of the list.
    pub fn get_trackers(&self) -> (r: &Vec<String>)
        ensures
            r == &self.trackers,
    {
        &self.trackers
    }

    /// The trackers of the list, separated by commas.
    pub fn get_tracker_string(&self) -> (r: String)
        ensures
            r@ == joined(strings_view(self.trackers@), seq![',']),
    {
        join_with(&self.trackers, ',')
    }
}

impl Default for TrackerUpdater {
    fn default() -> (u: TrackerUpdater)
        ensures
            u.last_update is None,
            u.trackers@.len() == 0,
    {
        TrackerUpdater::new()
    }
}

} // verus!
