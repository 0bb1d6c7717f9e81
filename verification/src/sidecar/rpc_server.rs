//! The checks on what arrives over the RPC channel, and the table of its
//! methods. The caller reads the lines and writes the answers.

use crate::engine::{url_host, url_host_of};
use crate::sidecar::error::{Error, ErrorView};
use crate::text::{
    all_digits, chars_of, digit, digits_value, ends_with, find, has_prefix, has_suffix, is_digit,
    join2, lowercase_of, owned, rows_view, slice, spec_find, spec_split, split_on, starts_with,
    str_eq, string_of, decimal, decimal_string,
};
use crate::torrent::IpBits;
use crate::types::opt_view;
use vstd::prelude::*;
use vstd::string::StringSliceAdditionalSpecFns;

verus! {

/// The longest URL that is taken, in bytes.
pub const MAX_URL_LENGTH: usize = 8192;

// ---------------------------------------------------------------------------
// Addresses
// ---------------------------------------------------------------------------

/// One part of a dotted IPv4 address: one to three digits without a
/// leading zero, at most 255.
pub open spec fn octet_of(part: Seq<char>) -> Option<int> {
    if 1 <= part.len() <= 3 && all_digits(part) && (part.len() == 1 || part[0] != '0')
        && digits_value(part) <= 255 {
        Some(digits_value(part))
    } else {
        None
    }
}

/// The IPv4 address that a text of four dotted decimal parts states.
pub open spec fn spec_parse_ipv4(host: Seq<char>) -> Option<u32> {
    let parts = spec_split(host, '.');
    if parts.len() == 4 && octet_of(parts[0]) is Some && octet_of(parts[1]) is Some && octet_of(
        parts[2],
    ) is Some && octet_of(parts[3]) is Some {
        Some(
            (octet_of(parts[0])->0 * 0x100_0000 + octet_of(parts[1])->0 * 0x1_0000 + octet_of(
                parts[2],
            )->0 * 0x100 + octet_of(parts[3])->0) as u32,
        )
    } else {
        None
    }
}

fn parse_octet(part: &Vec<char>) -> (r: Option<u32>)
    ensures
        match r {
            Some(v) => octet_of(part@) == Some(v as int),
            None => octet_of(part@) is None,
        },
{
    let n = part.len();
    if n < 1 || n > 3 {
        return None;
    }
    let mut value: u32 = 0;
    let mut i: usize = 0;
    assert(part@.take(0) =~= Seq::empty());
    while i < n
        invariant
            i <= n,
            n == part.len(),
            n <= 3,
            all_digits(part@.take(i as int)),
            value == digits_value(part@.take(i as int)),
            i == 0 ==> value == 0,
            i == 1 ==> value <= 9,
            i == 2 ==> value <= 99,
            value <= 999,
        decreases n - i,
    {
        let c = part[i];
        if !digit(c) {
            assert(part@[i as int] == c);
            return None;
        }
        let ghost next = part@.take(i + 1);
        assert(next.drop_last() == part@.take(i as int));
        assert(next.last() == c);
        assert(all_digits(next)) by {
            assert forall|j: int| 0 <= j < next.len() implies is_digit(#[trigger] next[j]) by {
                if j < i {
                    assert(next[j] == part@.take(i as int)[j]);
                }
            }
        }
        value = value * 10 + (c as u32 - 0x30);
        i += 1;
    }
    assert(part@.take(n as int) == part@);
    if (n > 1 && part[0] == '0') || value > 255 {
        return None;
    }
    Some(value)
}

/// Reads a dotted IPv4 address.
pub fn parse_ipv4(host: &str) -> (r: Option<u32>)
    ensures
        r == spec_parse_ipv4(host@),
{
    let parts = split_on(&chars_of(host), '.');
    if parts.len() != 4 {
        return None;
    }
    proof {
        let v = rows_view(parts@);
        assert(v[0] == parts@[0]@ && v[1] == parts@[1]@ && v[2] == parts@[2]@ && v[3]
            == parts@[3]@);
    }
    let a = match parse_octet(&parts[0]) {
        Some(v) => v,
        None => {
            return None;
        },
    };
    let b = match parse_octet(&parts[1]) {
        Some(v) => v,
        None => {
            return None;
        },
    };
    let c = match parse_octet(&parts[2]) {
        Some(v) => v,
        None => {
            return None;
        },
    };
    let d = match parse_octet(&parts[3]) {
        Some(v) => v,
        None => {
            return None;
        },
    };
    Some(a * 0x100_0000 + b * 0x1_0000 + c * 0x100 + d)
}

/// An address that no download may target: for IPv4 the loopback net
/// `127/8`, the private nets `10/8`, `172.16/12` and `192.168/16`, the
/// link-local net `169.254/16` and `0.0.0.0`; for IPv6 the loopback
/// address, the unspecified address and the unique local net `fc00::/7`.
pub open spec fn spec_is_private(ip: IpBits) -> bool {
    match ip {
        IpBits::V4(v) => {
            let a = v as int / 0x100_0000;
            let b = (v as int / 0x1_0000) % 0x100;
            ||| a == 127
            ||| a == 10
            ||| (a == 172 && 16 <= b <= 31)
            ||| (a == 192 && b == 168)
            ||| (a == 169 && b == 254)
            ||| v == 0
        },
        IpBits::V6(v) => {
            ||| v == 1
            ||| v == 0
            ||| (v as int / 0x100_0000_0000_0000_0000_0000_0000_0000) / 2 == 0x7E
        },
    }
}

/// Whether an address is a loopback, private, link-local or unspecified
/// one.
pub fn is_private_ip(ip: &IpBits) -> (r: bool)
    ensures
        r == spec_is_private(*ip),
{
    match ip {
        IpBits::V4(v) => {
            let a: u32 = *v / 0x100_0000;
            let b: u32 = (*v / 0x1_0000) % 0x100;
            a == 127 || a == 10 || (a == 172 && 16 <= b && b <= 31) || (a == 192 && b == 168) || (a
                == 169 && b == 254) || *v == 0
        },
        IpBits::V6(v) => {
            *v == 1 || *v == 0 || (*v / 0x100_0000_0000_0000_0000_0000_0000_0000u128) / 2 == 0x7E
        },
    }
}

// ---------------------------------------------------------------------------
// URLs
// ---------------------------------------------------------------------------

/// The text before the first `://`, or all of it.
pub open spec fn scheme_part(url: Seq<char>) -> Seq<char> {
    match spec_find(url, "://"@) {
        Some(i) => url.take(i),
        None => url,
    }
}

/// Why a download URL is refused, if it is: `byte_len` is its length in
/// bytes, `lower` its lower-case form and `host` the host that the URL
/// parser found in it, if it found one.
pub open spec fn url_refusal(
    url: Seq<char>,
    byte_len: usize,
    lower: Seq<char>,
    host: Option<Seq<char>>,
) -> Option<Seq<char>> {
    if url.len() == 0 {
        Some("URL cannot be empty"@)
    } else if byte_len > MAX_URL_LENGTH {
        Some(
            "URL exceeds maximum length of "@ + decimal(MAX_URL_LENGTH as nat) + " characters"@,
        )
    } else if has_prefix(lower, "magnet:"@) {
        None
    } else if !has_prefix(lower, "http://"@) && !has_prefix(lower, "https://"@) {
        Some("URL must use http://, https://, or magnet: scheme, got: "@ + scheme_part(url))
    } else if host matches Some(h) && spec_parse_ipv4(h) matches Some(ip) && spec_is_private(
        IpBits::V4(ip),
    ) {
        Some("URLs targeting private/loopback IP addresses are not allowed"@)
    } else {
        None
    }
}

/// Checks a download URL of which the lower-case form and the host are
/// known: it must be a magnet link or an HTTP or HTTPS URL of at most
/// `MAX_URL_LENGTH` bytes that targets no private address.
pub fn check_download_url(url: &str, lower: &str, host: &Option<String>) -> (r: Result<(), Error>)
    ensures
        match r {
            Ok(_) => url_refusal(url@, url.spec_bytes().len() as usize, lower@, opt_view(*host))
                is None,
            Err(e) => url_refusal(url@, url.spec_bytes().len() as usize, lower@, opt_view(*host))
                == Some(e@->InvalidInput_0) && e@ is InvalidInput,
        },
{
    if url.is_empty() {
        return Err(Error::InvalidInput(owned("URL cannot be empty")));
    }
    if url.len() > MAX_URL_LENGTH {
        let number = decimal_string(MAX_URL_LENGTH as u64);
        return Err(
            Error::InvalidInput(
                crate::text::join3(
                    "URL exceeds maximum length of ",
                    number.as_str(),
                    " characters",
                ),
            ),
        );
    }
    let l = chars_of(lower);
    if starts_with(&l, &chars_of("magnet:")) {
        return Ok(());
    }
    if !starts_with(&l, &chars_of("http://")) && !starts_with(&l, &chars_of("https://")) {
        let u = chars_of(url);
        let part = match find(&u, &chars_of("://")) {
            Some(i) => {
                assert(u@.take(i as int) == u@.subrange(0, i as int));
                slice(&u, 0, i)
            },
            None => {
                assert(u@.subrange(0, u.len() as int) == u@);
                slice(&u, 0, u.len())
            },
        };
        let text = string_of(&part);
        return Err(
            Error::InvalidInput(
                join2("URL must use http://, https://, or magnet: scheme, got: ", text.as_str()),
            ),
        );
    }
    match host {
        Some(h) => match parse_ipv4(h.as_str()) {
            Some(ip) => {
                if is_private_ip(&IpBits::V4(ip)) {
                    return Err(
                        Error::InvalidInput(
                            owned("URLs targeting private/loopback IP addresses are not allowed"),
                        ),
                    );
                }
            },
            None => {},
        },
        None => {},
    }
    Ok(())
}

/// Checks a download URL: it must be a magnet link or an HTTP or HTTPS URL
/// of at most `MAX_URL_LENGTH` bytes that targets no private address.
pub fn validate_download_url(url: &str) -> (r: Result<(), Error>)
    ensures
        match r {
            Ok(_) => url_refusal(
                url@,
                url.spec_bytes().len() as usize,
                lowercase_of(url@),
                url_host_of(url@),
            ) is None,
            Err(e) => url_refusal(
                url@,
                url.spec_bytes().len() as usize,
                lowercase_of(url@),
                url_host_of(url@),
            ) == Some(e@->InvalidInput_0) && e@ is InvalidInput,
        },
{
    let lower = url.to_lowercase();
    let host: Option<String> = url_host(url);
    check_download_url(url, lower.as_str(), &host)
}

/// Why the path of a torrent file is refused, if it is: `lower` is its
/// lower-case form, `exists` whether there is such a file.
pub open spec fn torrent_path_refusal(path: Seq<char>, lower: Seq<char>, exists: bool) -> Option<
    Seq<char>,
> {
    if path.len() == 0 {
        Some("Torrent file path cannot be empty"@)
    } else if !has_suffix(lower, ".torrent"@) {
        Some("File must have a .torrent extension"@)
    } else if !exists {
        Some("Torrent file does not exist: "@ + path)
    } else {
        None
    }
}

/// Checks the path of a torrent file of which the lower-case form is
/// known.
pub fn check_torrent_path(file_path: &str, lower: &str, exists: bool) -> (r: Result<(), Error>)
    ensures
        match r {
            Ok(_) => torrent_path_refusal(file_path@, lower@, exists) is None,
            Err(e) => torrent_path_refusal(file_path@, lower@, exists) == Some(
                e@->InvalidInput_0,
            ) && e@ is InvalidInput,
        },
{
    if file_path.is_empty() {
        return Err(Error::InvalidInput(owned("Torrent file path cannot be empty")));
    }
    if !ends_with(&chars_of(lower), &chars_of(".torrent")) {
        return Err(Error::InvalidInput(owned("File must have a .torrent extension")));
    }
    if !exists {
        return Err(Error::InvalidInput(join2("Torrent file does not exist: ", file_path)));
    }
    Ok(())
}

/// Checks the path of a torrent file: it must not be empty, must end in
/// `.torrent` whatever the case, and must exist.
pub fn validate_torrent_path(file_path: &str, exists: bool) -> (r: Result<(), Error>)
    ensures
        match r {
            Ok(_) => torrent_path_refusal(file_path@, lowercase_of(file_path@), exists) is None,
            Err(e) => torrent_path_refusal(file_path@, lowercase_of(file_path@), exists) == Some(
                e@->InvalidInput_0,
            ) && e@ is InvalidInput,
        },
        file_path@.len() == 0 ==> r is Err,
        !exists ==> r is Err,
{
    let lower = file_path.to_lowercase();
    check_torrent_path(file_path, lower.as_str(), exists)
}

// ---------------------------------------------------------------------------
// Methods
// ---------------------------------------------------------------------------

/// The methods of the RPC channel.
#[derive(Clone, Copy, Debug, PartialEq, Eq, Structural)]
pub enum RpcMethod {
    AddDownload,
    AddUrls,
    PauseDownload,
    PauseAll,
    ResumeDownload,
    ResumeAll,
    RemoveDownload,
    GetDownloadStatus,
    GetAllDownloads,
    GetActiveDownloads,
    GetGlobalStats,
    SetSpeedLimit,
    AddTorrentFile,
    AddMagnet,
    GetTorrentFiles,
    SelectTorrentFiles,
    ParseTorrentFile,
    ParseMagnetUri,
    GetPeers,
    GetSettings,
    UpdateSettings,
    SetCloseToTray,
    SetUserAgent,
    GetTrackerList,
    UpdateTrackerList,
    ApplySettingsToEngine,
    GetUserAgentPresets,
    SetPriority,
    GetScheduleRules,
    SetScheduleRules,
    GetEngineVersion,
    OpenDownloadFolder,
    OpenFileLocation,
    GetDefaultDownloadPath,
    GetAppVersion,
    GetAppInfo,
    DbGetCompletedHistory,
    DbSaveDownload,
    DbRemoveDownload,
    DbClearHistory,
    DbGetSettings,
    DbSaveSettings,
    DbLoadIncomplete,
}

impl RpcMethod {
    /// The name under which the method is called.
    pub open spec fn name(self) -> Seq<char> {
        match self {
            RpcMethod::AddDownload => "add_download"@,
            RpcMethod::AddUrls => "add_urls"@,
            RpcMethod::PauseDownload => "pause_download"@,
            RpcMethod::PauseAll => "pause_all"@,
            RpcMethod::ResumeDownload => "resume_download"@,
            RpcMethod::ResumeAll => "resume_all"@,
            RpcMethod::RemoveDownload => "remove_download"@,
            RpcMethod::GetDownloadStatus => "get_download_status"@,
            RpcMethod::GetAllDownloads => "get_all_downloads"@,
            RpcMethod::GetActiveDownloads => "get_active_downloads"@,
            RpcMethod::GetGlobalStats => "get_global_stats"@,
            RpcMethod::SetSpeedLimit => "set_speed_limit"@,
            RpcMethod::AddTorrentFile => "add_torrent_file"@,
            RpcMethod::AddMagnet => "add_magnet"@,
            RpcMethod::GetTorrentFiles => "get_torrent_files"@,
            RpcMethod::SelectTorrentFiles => "select_torrent_files"@,
            RpcMethod::ParseTorrentFile => "parse_torrent_file"@,
            RpcMethod::ParseMagnetUri => "parse_magnet_uri"@,
            RpcMethod::GetPeers => "get_peers"@,
            RpcMethod::GetSettings => "get_settings"@,
            RpcMethod::UpdateSettings => "update_settings"@,
            RpcMethod::SetCloseToTray => "set_close_to_tray"@,
            RpcMethod::SetUserAgent => "set_user_agent"@,
            RpcMethod::GetTrackerList => "get_tracker_list"@,
            RpcMethod::UpdateTrackerList => "update_tracker_list"@,
            RpcMethod::ApplySettingsToEngine => "apply_settings_to_engine"@,
            RpcMethod::GetUserAgentPresets => "get_user_agent_presets"@,
            RpcMethod::SetPriority => "set_priority"@,
            RpcMethod::GetScheduleRules => "get_schedule_rules"@,
            RpcMethod::SetScheduleRules => "set_schedule_rules"@,
            RpcMethod::GetEngineVersion => "get_engine_version"@,
            RpcMethod::OpenDownloadFolder => "open_download_folder"@,
            RpcMethod::OpenFileLocation => "open_file_location"@,
            RpcMethod::GetDefaultDownloadPath => "get_default_download_path"@,
            RpcMethod::GetAppVersion => "get_app_version"@,
            RpcMethod::GetAppInfo => "get_app_info"@,
            RpcMethod::DbGetCompletedHistory => "db_get_completed_history"@,
            RpcMethod::DbSaveDownload => "db_save_download"@,
            RpcMethod::DbRemoveDownload => "db_remove_download"@,
            RpcMethod::DbClearHistory => "db_clear_history"@,
            RpcMethod::DbGetSettings => "db_get_settings"@,
            RpcMethod::DbSaveSettings => "db_save_settings"@,
            RpcMethod::DbLoadIncomplete => "db_load_incomplete"@,
        }
    }

    /// All methods, in the order in which a name is looked up.
    pub fn all() -> (r: Vec<RpcMethod>)
        ensures
            forall|m: RpcMethod| r@.contains(m),
    {
        let r = vec![
            RpcMethod::AddDownload,
            RpcMethod::AddUrls,
            RpcMethod::PauseDownload,
            RpcMethod::PauseAll,
            RpcMethod::ResumeDownload,
            RpcMethod::ResumeAll,
            RpcMethod::RemoveDownload,
            RpcMethod::GetDownloadStatus,
            RpcMethod::GetAllDownloads,
            RpcMethod::GetActiveDownloads,
            RpcMethod::GetGlobalStats,
            RpcMethod::SetSpeedLimit,
            RpcMethod::AddTorrentFile,
            RpcMethod::AddMagnet,
            RpcMethod::GetTorrentFiles,
            RpcMethod::SelectTorrentFiles,
            RpcMethod::ParseTorrentFile,
            RpcMethod::ParseMagnetUri,
            RpcMethod::GetPeers,
            RpcMethod::GetSettings,
            RpcMethod::UpdateSettings,
            RpcMethod::SetCloseToTray,
            RpcMethod::SetUserAgent,
            RpcMethod::GetTrackerList,
            RpcMethod::UpdateTrackerList,
            RpcMethod::ApplySettingsToEngine,
            RpcMethod::GetUserAgentPresets,
            RpcMethod::SetPriority,
            RpcMethod::GetScheduleRules,
            RpcMethod::SetScheduleRules,
            RpcMethod::GetEngineVersion,
            RpcMethod::OpenDownloadFolder,
            RpcMethod::OpenFileLocation,
            RpcMethod::GetDefaultDownloadPath,
            RpcMethod::GetAppVersion,
            RpcMethod::GetAppInfo,
            RpcMethod::DbGetCompletedHistory,
            RpcMethod::DbSaveDownload,
            RpcMethod::DbRemoveDownload,
            RpcMethod::DbClearHistory,
            RpcMethod::DbGetSettings,
            RpcMethod::DbSaveSettings,
            RpcMethod::DbLoadIncomplete,
        ];
        proof {
            assert forall|m: RpcMethod| r@.contains(m) by {
                let i: int = match m {
                    RpcMethod::AddDownload => 0,
                    RpcMethod::AddUrls => 1,
                    RpcMethod::PauseDownload => 2,
                    RpcMethod::PauseAll => 3,
                    RpcMethod::ResumeDownload => 4,
                    RpcMethod::ResumeAll => 5,
                    RpcMethod::RemoveDownload => 6,
                    RpcMethod::GetDownloadStatus => 7,
                    RpcMethod::GetAllDownloads => 8,
                    RpcMethod::GetActiveDownloads => 9,
                    RpcMethod::GetGlobalStats => 10,
                    RpcMethod::SetSpeedLimit => 11,
                    RpcMethod::AddTorrentFile => 12,
                    RpcMethod::AddMagnet => 13,
                    RpcMethod::GetTorrentFiles => 14,
                    RpcMethod::SelectTorrentFiles => 15,
                    RpcMethod::ParseTorrentFile => 16,
                    RpcMethod::ParseMagnetUri => 17,
                    RpcMethod::GetPeers => 18,
                    RpcMethod::GetSettings => 19,
                    RpcMethod::UpdateSettings => 20,
                    RpcMethod::SetCloseToTray => 21,
                    RpcMethod::SetUserAgent => 22,
                    RpcMethod::GetTrackerList => 23,
                    RpcMethod::UpdateTrackerList => 24,
                    RpcMethod::ApplySettingsToEngine => 25,
                    RpcMethod::GetUserAgentPresets => 26,
                    RpcMethod::SetPriority => 27,
                    RpcMethod::GetScheduleRules => 28,
                    RpcMethod::SetScheduleRules => 29,
                    RpcMethod::GetEngineVersion => 30,
                    RpcMethod::OpenDownloadFolder => 31,
                    RpcMethod::OpenFileLocation => 32,
                    RpcMethod::GetDefaultDownloadPath => 33,
                    RpcMethod::GetAppVersion => 34,
                    RpcMethod::GetAppInfo => 35,
                    RpcMethod::DbGetCompletedHistory => 36,
                    RpcMethod::DbSaveDownload => 37,
                    RpcMethod::DbRemoveDownload => 38,
                    RpcMethod::DbClearHistory => 39,
                    RpcMethod::DbGetSettings => 40,
                    RpcMethod::DbSaveSettings => 41,
                    RpcMethod::DbLoadIncomplete => 42,
                };
                assert(r@[i] == m);
            }
        }
        r
    }

    /// The name under which the method is called.
    pub fn to_name(self) -> (r: &'static str)
        ensures
            r@ == self.name(),
    {
        match self {
            RpcMethod::AddDownload => "add_download",
            RpcMethod::AddUrls => "add_urls",
            RpcMethod::PauseDownload => "pause_download",
            RpcMethod::PauseAll => "pause_all",
            RpcMethod::ResumeDownload => "resume_download",
            RpcMethod::ResumeAll => "resume_all",
            RpcMethod::RemoveDownload => "remove_download",
            RpcMethod::GetDownloadStatus => "get_download_status",
            RpcMethod::GetAllDownloads => "get_all_downloads",
            RpcMethod::GetActiveDownloads => "get_active_downloads",
            RpcMethod::GetGlobalStats => "get_global_stats",
            RpcMethod::SetSpeedLimit => "set_speed_limit",
            RpcMethod::AddTorrentFile => "add_torrent_file",
            RpcMethod::AddMagnet => "add_magnet",
            RpcMethod::GetTorrentFiles => "get_torrent_files",
            RpcMethod::SelectTorrentFiles => "select_torrent_files",
            RpcMethod::ParseTorrentFile => "parse_torrent_file",
            RpcMethod::ParseMagnetUri => "parse_magnet_uri",
            RpcMethod::GetPeers => "get_peers",
            RpcMethod::GetSettings => "get_settings",
            RpcMethod::UpdateSettings => "update_settings",
            RpcMethod::SetCloseToTray => "set_close_to_tray",
            RpcMethod::SetUserAgent => "set_user_agent",
            RpcMethod::GetTrackerList => "get_tracker_list",
            RpcMethod::UpdateTrackerList => "update_tracker_list",
            RpcMethod::ApplySettingsToEngine => "apply_settings_to_engine",
            RpcMethod::GetUserAgentPresets => "get_user_agent_presets",
            RpcMethod::SetPriority => "set_priority",
            RpcMethod::GetScheduleRules => "get_schedule_rules",
            RpcMethod::SetScheduleRules => "set_schedule_rules",
            RpcMethod::GetEngineVersion => "get_engine_version",
            RpcMethod::OpenDownloadFolder => "open_download_folder",
            RpcMethod::OpenFileLocation => "open_file_location",
            RpcMethod::GetDefaultDownloadPath => "get_default_download_path",
            RpcMethod::GetAppVersion => "get_app_version",
            RpcMethod::GetAppInfo => "get_app_info",
            RpcMethod::DbGetCompletedHistory => "db_get_completed_history",
            RpcMethod::DbSaveDownload => "db_save_download",
            RpcMethod::DbRemoveDownload => "db_remove_download",
            RpcMethod::DbClearHistory => "db_clear_history",
            RpcMethod::DbGetSettings => "db_get_settings",
            RpcMethod::DbSaveSettings => "db_save_settings",
            RpcMethod::DbLoadIncomplete => "db_load_incomplete",
        }
    }

    /// The method that a name calls: the first of `all` with that name.
    pub fn from_name(name: &str) -> (r: Result<RpcMethod, Error>)
        ensures
            match r {
                Ok(m) => m.name() == name@,
                Err(e) => (forall|m: RpcMethod| m.name() != name@) && e@
                    == ErrorView::InvalidInput("Unknown method: "@ + name@),
            },
    {
        let all = RpcMethod::all();
        let mut i: usize = 0;
        while i < all.len()
            invariant
                i <= all.len(),
                forall|m: RpcMethod| all@.contains(m),
                forall|j: int| 0 <= j < i ==> (#[trigger] all@[j]).name() != name@,
            decreases all.len() - i,
        {
            if str_eq(all[i].to_name(), name) {
                return Ok(all[i]);
            }
            i += 1;
        }
        proof {
            assert forall|m: RpcMethod| m.name() != name@ by {
                assert(all@.contains(m));
                let j = choose|j: int| 0 <= j < all@.len() && all@[j] == m;
                assert(all@[j].name() != name@);
            }
        }
        Err(Error::InvalidInput(join2("Unknown method: ", name)))
    }
}

/// The code of the answer to a line that is no JSON.
pub const PARSE_ERROR_CODE: i32 = -32700;

/// Whether a line of input carries a request: a line of white space alone
/// carries none.
pub fn is_request_line(line: &str) -> (r: bool)
    ensures
        r == (crate::text::trimmed(line@).len() > 0),
{
    crate::text::trim(&chars_of(line)).len() > 0
}

} // verus!
