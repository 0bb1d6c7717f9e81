//! What the commands of the desktop application send to aria2.

use crate::aria2::db::Settings;
use crate::sidecar::db::{format_permille, permille_text};
use crate::text::{decimal, decimal_string, owned};
use crate::types::pairs_view;
use vstd::prelude::*;

verus! {

/// The user agents that the settings offer, each with its label.
pub open spec fn user_agent_presets() -> Seq<(Seq<char>, Seq<char>)> {
    seq![
        ("Gosh-Fetch"@, "Gosh-Fetch/1.0"@),
        (
            "Chrome (Windows)"@,
            "Mozilla/5.0 (Windows NT 10.0; Win64; x64) AppleWebKit/537.36 (KHTML, like Gecko) Chrome/120.0.0.0 Safari/537.36"@,
        ),
        (
            "Chrome (macOS)"@,
            "Mozilla/5.0 (Macintosh; Intel Mac OS X 10_15_7) AppleWebKit/537.36 (KHTML, like Gecko) Chrome/120.0.0.0 Safari/537.36"@,
        ),
        (
            "Firefox (Windows)"@,
            "Mozilla/5.0 (Windows NT 10.0; Win64; x64; rv:121.0) Gecko/20100101 Firefox/121.0"@,
        ),
        (
            "Firefox (Linux)"@,
            "Mozilla/5.0 (X11; Linux x86_64; rv:121.0) Gecko/20100101 Firefox/121.0"@,
        ),
        ("Wget"@, "Wget/1.21.4"@),
        ("Curl"@, "curl/8.5.0"@),
    ]
}

/// The user agents that the settings offer, each with its label.
pub fn get_user_agent_presets() -> (r: Vec<(String, String)>)
    ensures
        pairs_view(r@) == user_agent_presets(),
{
    let mut r: Vec<(String, String)> = Vec::new();
    r.push((owned("Gosh-Fetch"), owned("Gosh-Fetch/1.0")));
    r.push(
        (
            owned("Chrome (Windows)"),
            owned(
                "Mozilla/5.0 (Windows NT 10.0; Win64; x64) AppleWebKit/537.36 (KHTML, like Gecko) Chrome/120.0.0.0 Safari/537.36",
            ),
        ),
    );
    r.push(
        (
            owned("Chrome (macOS)"),
            owned(
                "Mozilla/5.0 (Macintosh; Intel Mac OS X 10_15_7) AppleWebKit/537.36 (KHTML, like Gecko) Chrome/120.0.0.0 Safari/537.36",
            ),
        ),
    );
    r.push(
        (
            owned("Firefox (Windows)"),
            owned(
                "Mozilla/5.0 (Windows NT 10.0; Win64; x64; rv:121.0) Gecko/20100101 Firefox/121.0",
            ),
        ),
    );
    r.push(
        (
            owned("Firefox (Linux)"),
            owned("Mozilla/5.0 (X11; Linux x86_64; rv:121.0) Gecko/20100101 Firefox/121.0"),
        ),
    );
    r.push((owned("Wget"), owned("Wget/1.21.4")));
    r.push((owned("Curl"), owned("curl/8.5.0")));
    assert(pairs_view(r@) =~= user_agent_presets());
    r
}

/// The global option of aria2 for a limit, if there is a limit.
pub open spec fn limit_pair(key: Seq<char>, limit: Option<u64>) -> Seq<(Seq<char>, Seq<char>)> {
    match limit {
        Some(n) => seq![(key, decimal(n as nat))],
        None => Seq::empty(),
    }
}

/// The global options of aria2 that set the speed limits that are given.
pub fn speed_limit_options(download_limit: Option<u64>, upload_limit: Option<u64>) -> (r: Vec<
    (String, String),
>)
    ensures
        pairs_view(r@) == limit_pair("max-overall-download-limit"@, download_limit) + limit_pair(
            "max-overall-upload-limit"@,
            upload_limit,
        ),
{
    let mut out: Vec<(String, String)> = Vec::new();
    match download_limit {
        Some(n) => {
            out.push((owned("max-overall-download-limit"), decimal_string(n)));
        },
        None => {},
    }
    match upload_limit {
        Some(n) => {
            out.push((owned("max-overall-upload-limit"), decimal_string(n)));
        },
        None => {},
    }
    assert(pairs_view(out@) =~= limit_pair("max-overall-download-limit"@, download_limit)
        + limit_pair("max-overall-upload-limit"@, upload_limit));
    out
}

/// The speed limit that a setting of bytes a second stands for: zero is
/// no limit.
pub open spec fn setting_limit(n: u64) -> Option<u64> {
    if n > 0 {
        Some(n)
    } else {
        None
    }
}

/// The global options of aria2 that the settings stand for.
pub open spec fn spec_settings_options(s: Settings) -> Seq<(Seq<char>, Seq<char>)> {
    seq![
        ("dir"@, s.download_path@),
        ("max-concurrent-downloads"@, decimal(s.max_concurrent_downloads as nat)),
        ("split"@, decimal(s.split_count as nat)),
        ("max-connection-per-server"@, decimal(s.max_connections_per_server as nat)),
    ] + limit_pair("max-overall-download-limit"@, setting_limit(s.download_speed_limit))
        + limit_pair("max-overall-upload-limit"@, setting_limit(s.upload_speed_limit)) + seq![
        ("user-agent"@, s.user_agent@),
        ("bt-max-peers"@, decimal(s.bt_max_peers as nat)),
        ("seed-ratio"@, permille_text(s.bt_seed_ratio_permille)),
    ]
}

/// The global options of aria2 that the settings stand for.
pub fn settings_options(settings: &Settings) -> (r: Vec<(String, String)>)
    ensures
        pairs_view(r@) == spec_settings_options(*settings),
{
    let mut out: Vec<(String, String)> = Vec::new();
    out.push((owned("dir"), settings.download_path.clone()));
    out.push(
        (
            owned("max-concurrent-downloads"),
            decimal_string(settings.max_concurrent_downloads as u64),
        ),
    );
    out.push((owned("split"), decimal_string(settings.split_count as u64)));
    out.push(
        (
            owned("max-connection-per-server"),
            decimal_string(settings.max_connections_per_server as u64),
        ),
    );
    if settings.download_speed_limit > 0 {
        out.push(
            (owned("max-overall-download-limit"), decimal_string(settings.download_speed_limit)),
        );
    }
    if settings.upload_speed_limit > 0 {
        out.push((owned("max-overall-upload-limit"), decimal_string(settings.upload_speed_limit)));
    }
    out.push((owned("user-agent"), settings.user_agent.clone()));
    out.push((owned("bt-max-peers"), decimal_string(settings.bt_max_peers as u64)));
    out.push((owned("seed-ratio"), format_permille(settings.bt_seed_ratio_permille)));
    assert(pairs_view(out@) =~= spec_settings_options(*settings));
    out
}

} // verus!
