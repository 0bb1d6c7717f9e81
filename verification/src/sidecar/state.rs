//! The state of the application around one engine: whether the engine is
//! up, where the data lives, and what the window does when it is closed.

use crate::config::{path_join, DirProbe, EngineConfig};
use crate::engine::{DownloadEngine, StatusGroup};
use crate::sidecar::commands::apply_settings_to_config;
use crate::sidecar::db::Settings;
use crate::sidecar::engine_adapter::{renders, EngineAdapter};
use crate::sidecar::error::{Error, ErrorView};
use crate::sidecar::types::{Download, DownloadState};
use crate::text::owned;
use crate::types::{DownloadId, DownloadStatusView};
use vstd::prelude::*;

verus! {

/// The state of the application.
#[derive(Debug)]
pub struct AppState {
    /// The adapter of the running engine.
    pub adapter: Option<EngineAdapter>,
    /// Whether closing the window hides it in the tray.
    pub close_to_tray: bool,
    /// Where the databases live.
    pub data_dir: Option<String>,
}

/// The settings allow at least one download at a time and at least one
/// connection for each.
pub open spec fn settings_in_range(settings: Settings) -> bool {
    settings.max_concurrent_downloads >= 1 && (settings.max_connections_per_server >= 1
        || settings.split_count >= 1)
}

/// `all` holds the front end's record of each status, in order.
pub open spec fn renders_each(statuses: Seq<DownloadStatusView>, all: Seq<Download>) -> bool {
    &&& all.len() == statuses.len()
    &&& forall|i: int| 0 <= i < all.len() ==> renders(statuses[i], #[trigger] all[i])
}

/// The downloads among `all` that are complete, in their order.
pub open spec fn completed_among(all: Seq<Download>) -> Seq<Download>
    decreases all.len(),
{
    if all.len() == 0 {
        Seq::empty()
    } else if all.last().status == DownloadState::Complete {
        completed_among(all.drop_last()).push(all.last())
    } else {
        completed_among(all.drop_last())
    }
}

impl AppState {
    pub open spec fn wf(&self) -> bool {
        self.adapter matches Some(a) ==> a.wf()
    }

    /// The state before anything is initialized: no engine, and the window
    /// closes to the tray.
    pub fn new() -> (s: AppState)
        ensures
            s.wf(),
            s.adapter is None,
            s.close_to_tray,
            s.data_dir is None,
    {
        AppState { adapter: None, close_to_tray: true, data_dir: None }
    }

    pub fn get_close_to_tray(&self) -> (r: bool)
        ensures
            r == self.close_to_tray,
    {
        self.close_to_tray
    }

    pub fn set_close_to_tray(&mut self, value: bool)
        ensures
            *final(self) == (AppState { close_to_tray: value, ..*old(self) }),
    {
        self.close_to_tray = value;
    }

    /// The configuration that the engine starts with: the defaults with
    /// the settings applied, and the engine's database in the data
    /// directory.
    pub fn initial_config(data_dir: &str, settings: &Settings) -> (c: EngineConfig)
        ensures
            c.database_path is Some,
            c.download_dir@ == settings.download_path@,
            c.max_concurrent_downloads == settings.max_concurrent_downloads,
            c.user_agent@ == settings.user_agent@,
            c.global_download_limit == crate::sidecar::commands::limit_of(
                settings.download_speed_limit,
            ),
            c.global_upload_limit == crate::sidecar::commands::limit_of(
                settings.upload_speed_limit,
            ),
            c.http.connect_timeout == settings.connect_timeout,
            c.http.read_timeout == settings.read_timeout,
            c.http.max_retries == settings.max_retries,
            c.min_segment_size == 1024 * 1024,
            c.limits_ok() == settings_in_range(*settings),
    {
        let base = EngineConfig::new();
        let mut c = apply_settings_to_config(base, settings);
        c.database_path = Some(path_join(data_dir, "engine.db"));
        c
    }

    /// Brings the engine up with the settings that were loaded; `dir` is
    /// what the file system says of the download directory.
    pub fn initialize(&mut self, data_dir: String, settings: &Settings, dir: DirProbe) -> (r:
        Result<(), Error>)
        requires
            old(self).wf(),
        ensures
            final(self).wf(),
            final(self).close_to_tray == old(self).close_to_tray,
            final(self).data_dir == Some(data_dir),
            r is Ok <==> dir.exists && dir.is_dir && settings_in_range(*settings),
            r is Ok ==> {
                &&& final(self).adapter matches Some(a)
                &&& a.engine.downloads@.len() == 0
                &&& a.engine.config.max_concurrent_downloads == settings.max_concurrent_downloads
                &&& a.engine.within_limit()
                &&& a.engine.config.download_dir@ == settings.download_path@
            },
            r matches Err(e) ==> final(self).adapter == old(self).adapter && e@ is InvalidInput,
    {
        let config = AppState::initial_config(data_dir.as_str(), settings);
        self.data_dir = Some(data_dir);
        match DownloadEngine::new(config, dir) {
            Ok(engine) => {
                self.adapter = Some(EngineAdapter::new(engine));
                Ok(())
            },
            Err(e) => Err(Error::from_engine(e)),
        }
    }

    /// Whether the engine is up.
    pub fn is_engine_running(&self) -> (r: bool)
        ensures
            r == self.adapter is Some,
    {
        self.adapter.is_some()
    }

    /// The adapter of the running engine.
    pub fn get_adapter(&self) -> (r: Result<&EngineAdapter, Error>)
        ensures
            match r {
                Ok(a) => self.adapter == Some(*a),
                Err(e) => self.adapter is None && e@ == ErrorView::EngineNotInitialized,
            },
    {
        match &self.adapter {
            Some(a) => Ok(a),
            None => Err(Error::EngineNotInitialized),
        }
    }

    /// The data directory.
    pub fn get_data_dir(&self) -> (r: Result<String, Error>)
        ensures
            match r {
                Ok(d) => self.data_dir == Some(d),
                Err(e) => self.data_dir is None && e@ == ErrorView::Database("Data dir not set"@),
            },
    {
        match &self.data_dir {
            Some(d) => Ok(d.clone()),
            None => Err(Error::Database(owned("Data dir not set"))),
        }
    }

    /// Replaces the configuration of the running engine; without an engine
    /// nothing happens.
    pub fn update_config(&mut self, config: EngineConfig, dir: DirProbe) -> (r: Result<(), Error>)
        requires
            old(self).wf(),
        ensures
            final(self).wf(),
            old(self).adapter is None ==> r is Ok && *final(self) == *old(self),
            final(self).close_to_tray == old(self).close_to_tray,
            final(self).data_dir == old(self).data_dir,
            old(self).adapter is Some ==> (r is Ok <==> dir.exists && dir.is_dir
                && config.limits_ok()),
            old(self).adapter matches Some(a) ==> final(self).adapter matches Some(b) && b.engine
                == (if r is Ok {
                DownloadEngine {
                    config,
                    ..a.engine
                }
            } else {
                a.engine
            }),
            r matches Err(e) ==> e@ is InvalidInput,
    {
        match self.adapter.take() {
            Some(a) => {
                let mut a = a;
                let r = a.engine.set_config(config, dir);
                self.adapter = Some(a);
                match r {
                    Ok(_) => Ok(()),
                    Err(e) => Err(Error::from_engine(e)),
                }
            },
            None => Ok(()),
        }
    }

    /// The downloads among `all` that are complete, in their order: the
    /// ones whose snapshot is written to the history when the application
    /// shuts down.
    pub fn completed_of(all: Vec<Download>) -> (r: Vec<Download>)
        ensures
            r@ == completed_among(all@),
    {
        let ghost whole = all@;
        let n = all.len();
        let mut rest = all;
        let mut turned: Vec<Download> = Vec::new();
        let mut i: usize = 0;
        while i < n
            invariant
                i <= n,
                n == whole.len(),
                rest@ == whole.take(n - i),
                turned@.len() == i,
                forall|k: int| 0 <= k < i ==> (#[trigger] turned@[k]) == whole[n - 1 - k],
            decreases n - i,
        {
            match rest.pop() {
                Some(d) => {
                    turned.push(d);
                },
                None => {},
            }
            assert(rest@ == whole.take(n - i - 1));
            i += 1;
        }
        let mut out: Vec<Download> = Vec::new();
        let mut j: usize = 0;
        assert(whole.take(0) =~= Seq::empty());
        while j < n
            invariant
                j <= n,
                n == whole.len(),
                turned@.len() == n - j,
                forall|k: int| 0 <= k < n - j ==> (#[trigger] turned@[k]) == whole[n - 1 - k],
                out@ == completed_among(whole.take(j as int)),
            decreases n - j,
        {
            proof {
                assert(whole.take(j + 1).drop_last() == whole.take(j as int));
                assert(whole.take(j + 1).last() == whole[j as int]);
                assert(turned@[n - j - 1] == whole[j as int]);
            }
            match turned.pop() {
                Some(d) => {
                    if d.status == DownloadState::Complete {
                        out.push(d);
                    }
                },
                None => {},
            }
            j += 1;
        }
        assert(whole.take(n as int) == whole);
        out
    }

    /// Shuts the engine down. The snapshots of the completed downloads are
    /// handed out for the history, and the ids of the downloads with a
    /// task, for the caller to signal and await the tasks.
    pub fn shutdown(&mut self) -> (r: (Vec<Download>, Vec<DownloadId>))
        requires
            old(self).wf(),
        ensures
            final(self).wf(),
            final(self).close_to_tray == old(self).close_to_tray,
            final(self).data_dir == old(self).data_dir,
            old(self).adapter is None ==> r.0@.len() == 0 && r.1@.len() == 0 && final(self).adapter is None,
            old(self).adapter matches Some(a) ==> {
                &&& final(self).adapter matches Some(b)
                &&& b.engine.shutting_down
                &&& r.1@ == crate::engine::task_ids(a.engine.downloads@)
            },
            old(self).adapter matches Some(a) ==> exists|all: Seq<Download>|
                #![auto]
                renders_each(
                    crate::engine::statuses_in(a.engine.downloads@, StatusGroup::All),
                    all,
                ) && r.0@ == completed_among(all),
    {
        match self.adapter.take() {
            Some(a) => {
                let mut a = a;
                let all = a.get_all();
                assert(renders_each(
                    crate::engine::statuses_in(a.engine.downloads@, StatusGroup::All),
                    all@,
                ));
                let snapshots = AppState::completed_of(all);
                let ids = a.engine.shutdown();
                self.adapter = Some(a);
                (snapshots, ids)
            },
            None => (Vec::new(), Vec::new()),
        }
    }
}

impl Default for AppState {
    fn default() -> (s: AppState)
        ensures
            s.adapter is None,
            s.close_to_tray,
    {
        AppState::new()
    }
}

} // verus!
