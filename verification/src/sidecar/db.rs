//! The front end's database: settings as rows of key and value, the history
//! of downloads, and the schema's migrations. The caller runs the
//! statements; this module says what stands in the rows.

use crate::config::{download_path_from, path_join, platform_download_dir, platform_home_dir};
use crate::sidecar::types::{Download, DownloadState, DownloadType};
use crate::text::{
    chars_of, concat, contains, contains_seq, decimal, decimal_string, digit, digits_value, find,
    has_prefix, is_digit, all_digits, joined, lowercase_of, occurs_at, owned, parse_u32, parse_u64, slice,
    spec_find, spec_parse_u32, spec_parse_u64, starts_with, str_eq, string_of,
};
use crate::types::{clone_opt, opt_view};
use vstd::prelude::*;

verus! {

// ---------------------------------------------------------------------------
// Ratios in thousandths
// ---------------------------------------------------------------------------

/// The first three digits after the point as thousandths: missing digits
/// count as zero, further digits are cut off.
pub open spec fn fraction_permille(frac: Seq<char>) -> int {
    let d0 = if frac.len() > 0 {
        frac[0] as u32 as int - 0x30
    } else {
        0
    };
    let d1 = if frac.len() > 1 {
        frac[1] as u32 as int - 0x30
    } else {
        0
    };
    let d2 = if frac.len() > 2 {
        frac[2] as u32 as int - 0x30
    } else {
        0
    };
    d0 * 100 + d1 * 10 + d2
}

/// The thousandths that a decimal text such as `1`, `1.5` or `0.25`
/// states: digits, then optionally a point and more digits.
pub open spec fn spec_parse_permille(s: Seq<char>) -> Option<u64> {
    let (whole, frac) = match spec_find(s, seq!['.']) {
        Some(i) => (s.take(i), s.skip(i + 1)),
        None => (s, Seq::<char>::empty()),
    };
    if whole.len() > 0 && all_digits(whole) && all_digits(frac) && digits_value(whole) * 1000
        + fraction_permille(frac) <= u64::MAX {
        Some((digits_value(whole) * 1000 + fraction_permille(frac)) as u64)
    } else {
        None
    }
}

fn digits_only(s: &Vec<char>) -> (r: bool)
    ensures
        r == all_digits(s@),
{
    let mut i: usize = 0;
    while i < s.len()
        invariant
            i <= s.len(),
            forall|j: int| 0 <= j < i ==> is_digit(#[trigger] s@[j]),
        decreases s.len() - i,
    {
        if !digit(s[i]) {
            return false;
        }
        i += 1;
    }
    true
}

/// Reads a ratio as thousandths.
pub fn parse_permille(text: &str) -> (r: Option<u64>)
    ensures
        r == spec_parse_permille(text@),
{
    let s = chars_of(text);
    let point: Vec<char> = vec!['.'];
    assert(point@ == seq!['.']);
    let (whole, frac) = match find(&s, &point) {
        Some(i) => {
            assert(occurs_at(s@, point@, i as int));
            assert(point@.len() == 1);
            assert(i + 1 <= s.len());
            let w = slice(&s, 0, i);
            let f = slice(&s, i + 1, s.len());
            assert(w@ == s@.take(i as int));
            assert(f@ == s@.skip(i + 1));
            (w, f)
        },
        None => {
            let w = slice(&s, 0, s.len());
            assert(w@ == s@);
            (w, Vec::new())
        },
    };
    if whole.len() == 0 || !digits_only(&whole) || !digits_only(&frac) {
        return None;
    }
    let ghost body = crate::text::unsigned_digits(whole@);
    assert(body == whole@) by {
        assert(is_digit(whole@[0]));
    }
    let n = match parse_u64(&whole) {
        Some(n) => n,
        None => {
            proof {
                crate::text::lemma_digits_value_bounds(whole@);
            }
            return None;
        },
    };
    proof {
        crate::text::lemma_digits_value_bounds(whole@);
    }
    let mut part: u64 = 0;
    if frac.len() > 0 {
        assert(is_digit(frac@[0]));
        part = part + ((frac[0] as u32 - 0x30) as u64) * 100;
    }
    if frac.len() > 1 {
        assert(is_digit(frac@[1]));
        part = part + ((frac[1] as u32 - 0x30) as u64) * 10;
    }
    if frac.len() > 2 {
        assert(is_digit(frac@[2]));
        part = part + ((frac[2] as u32 - 0x30) as u64);
    }
    assert(part == fraction_permille(frac@));
    match n.checked_mul(1000) {
        Some(scaled) => scaled.checked_add(part),
        None => None,
    }
}

/// The shortest decimal text of a number of thousandths: `1`, `1.5`,
/// `0.25`, `0.125`.
pub open spec fn permille_text(n: u64) -> Seq<char> {
    let whole = decimal((n / 1000) as nat);
    let frac = n % 1000;
    if frac == 0 {
        whole
    } else if frac % 100 == 0 {
        whole + seq!['.'] + decimal((frac / 100) as nat)
    } else if frac % 10 == 0 {
        whole + seq!['.', crate::text::digit_char((frac / 100) as int)] + decimal(
            ((frac / 10) % 10) as nat,
        )
    } else {
        whole + seq![
            '.',
            crate::text::digit_char((frac / 100) as int),
            crate::text::digit_char(((frac / 10) % 10) as int),
        ] + decimal((frac % 10) as nat)
    }
}

/// Writes a number of thousandths as decimal text.
pub fn format_permille(n: u64) -> (r: String)
    ensures
        r@ == permille_text(n),
{
    let mut out: Vec<char> = Vec::new();
    crate::text::push_decimal(&mut out, n / 1000);
    assert(out@ == decimal((n / 1000) as nat)) by {
        assert(Seq::<char>::empty() + decimal((n / 1000) as nat) == decimal((n / 1000) as nat));
    }
    let frac: u64 = n % 1000;
    if frac != 0 {
        out.push('.');
        if frac % 100 == 0 {
            crate::text::push_decimal(&mut out, frac / 100);
        } else if frac % 10 == 0 {
            out.push((0x30 + (frac / 100) as u8) as char);
            crate::text::push_decimal(&mut out, (frac / 10) % 10);
        } else {
            out.push((0x30 + (frac / 100) as u8) as char);
            out.push((0x30 + ((frac / 10) % 10) as u8) as char);
            crate::text::push_decimal(&mut out, frac % 10);
        }
    }
    assert(out@ =~= permille_text(n));
    string_of(&out)
}

// ---------------------------------------------------------------------------
// Settings
// ---------------------------------------------------------------------------

/// The settings of the application.
#[derive(Debug)]
pub struct Settings {
    pub download_path: String,
    pub max_concurrent_downloads: u32,
    pub max_connections_per_server: u32,
    pub split_count: u32,
    pub download_speed_limit: u64,
    pub upload_speed_limit: u64,
    pub user_agent: String,
    pub enable_notifications: bool,
    pub close_to_tray: bool,
    pub theme: String,
    pub bt_enable_dht: bool,
    pub bt_enable_pex: bool,
    pub bt_enable_lpd: bool,
    pub bt_max_peers: u32,
    /// Seeding cutoff in thousandths of the downloaded size.
    pub bt_seed_ratio_permille: u64,
    pub auto_update_trackers: bool,
    pub delete_files_on_remove: bool,
    pub proxy_url: String,
    /// Connection timeout in seconds.
    pub connect_timeout: u64,
    /// Idle read timeout in seconds.
    pub read_timeout: u64,
    pub max_retries: u32,
    /// `none`, `sparse` or `full`.
    pub allocation_mode: String,
}

pub struct SettingsView {
    pub download_path: Seq<char>,
    pub max_concurrent_downloads: u32,
    pub max_connections_per_server: u32,
    pub split_count: u32,
    pub download_speed_limit: u64,
    pub upload_speed_limit: u64,
    pub user_agent: Seq<char>,
    pub enable_notifications: bool,
    pub close_to_tray: bool,
    pub theme: Seq<char>,
    pub bt_enable_dht: bool,
    pub bt_enable_pex: bool,
    pub bt_enable_lpd: bool,
    pub bt_max_peers: u32,
    pub bt_seed_ratio_permille: u64,
    pub auto_update_trackers: bool,
    pub delete_files_on_remove: bool,
    pub proxy_url: Seq<char>,
    pub connect_timeout: u64,
    pub read_timeout: u64,
    pub max_retries: u32,
    pub allocation_mode: Seq<char>,
}

impl View for Settings {
    type V = SettingsView;

    open spec fn view(&self) -> SettingsView {
        SettingsView {
            download_path: self.download_path@,
            max_concurrent_downloads: self.max_concurrent_downloads,
            max_connections_per_server: self.max_connections_per_server,
            split_count: self.split_count,
            download_speed_limit: self.download_speed_limit,
            upload_speed_limit: self.upload_speed_limit,
            user_agent: self.user_agent@,
            enable_notifications: self.enable_notifications,
            close_to_tray: self.close_to_tray,
            theme: self.theme@,
            bt_enable_dht: self.bt_enable_dht,
            bt_enable_pex: self.bt_enable_pex,
            bt_enable_lpd: self.bt_enable_lpd,
            bt_max_peers: self.bt_max_peers,
            bt_seed_ratio_permille: self.bt_seed_ratio_permille,
            auto_update_trackers: self.auto_update_trackers,
            delete_files_on_remove: self.delete_files_on_remove,
            proxy_url: self.proxy_url@,
            connect_timeout: self.connect_timeout,
            read_timeout: self.read_timeout,
            max_retries: self.max_retries,
            allocation_mode: self.allocation_mode@,
        }
    }
}

/// The number that a settings value states, or `fallback`.
pub open spec fn u32_or(value: Seq<char>, fallback: u32) -> u32 {
    match spec_parse_u32(value) {
        Some(n) => n,
        None => fallback,
    }
}

/// The number that a settings value states, or `fallback`.
pub open spec fn u64_or(value: Seq<char>, fallback: u64) -> u64 {
    match spec_parse_u64(value) {
        Some(n) => n,
        None => fallback,
    }
}

/// A path with a leading `~` replaced by the home directory, where there
/// is one; any other path as it is.
pub open spec fn spec_expand_tilde(path: Seq<char>, home: Option<Seq<char>>) -> Seq<char> {
    if path == "~"@ || has_prefix(path, "~/"@) {
        match home {
            Some(h) => h + path.skip(1),
            None => path,
        }
    } else {
        path
    }
}

/// A path with a leading `~` replaced by the given home directory.
pub fn expand_tilde_with(path: &str, home: &Option<String>) -> (r: String)
    ensures
        r@ == spec_expand_tilde(path@, opt_view(*home)),
{
    let p = chars_of(path);
    let marker = chars_of("~/");
    if str_eq(path, "~") || starts_with(&p, &marker) {
        match home {
            Some(h) => {
                proof {
                    reveal_strlit("~");
                    reveal_strlit("~/");
                    if has_prefix(p@, "~/"@) {
                        assert(occurs_at(p@, "~/"@, 0));
                    }
                }
                let rest = slice(&p, 1, p.len());
                assert(rest@ == p@.skip(1));
                string_of(&concat(&chars_of(h.as_str()), &rest))
            },
            None => owned(path),
        }
    } else {
        owned(path)
    }
}

/// A path with a leading `~` replaced by the user's home directory.
pub fn expand_tilde(path: &str) -> (r: String)
    ensures
        !(path@ == "~"@ || has_prefix(path@, "~/"@)) ==> r@ == path@,
{
    let home = platform_home_dir();
    expand_tilde_with(path, &home)
}

/// The settings after the row `key`, `value` has been read: a known key
/// sets its field, an unknown key changes nothing. A number that cannot be
/// read becomes the default of its field, a flag is set by `true` alone.
pub open spec fn spec_apply(
    s: SettingsView,
    key: Seq<char>,
    value: Seq<char>,
    home: Option<Seq<char>>,
) -> SettingsView {
    if key == "download_path"@ {
        SettingsView { download_path: spec_expand_tilde(value, home), ..s }
    } else if key == "max_concurrent_downloads"@ {
        SettingsView { max_concurrent_downloads: u32_or(value, 5), ..s }
    } else if key == "max_connections_per_server"@ {
        SettingsView { max_connections_per_server: u32_or(value, 8), ..s }
    } else if key == "split_count"@ {
        SettingsView { split_count: u32_or(value, 8), ..s }
    } else if key == "download_speed_limit"@ {
        SettingsView { download_speed_limit: u64_or(value, 0), ..s }
    } else if key == "upload_speed_limit"@ {
        SettingsView { upload_speed_limit: u64_or(value, 0), ..s }
    } else if key == "user_agent"@ {
        SettingsView { user_agent: value, ..s }
    } else if key == "enable_notifications"@ {
        SettingsView { enable_notifications: value == "true"@, ..s }
    } else if key == "close_to_tray"@ {
        SettingsView { close_to_tray: value == "true"@, ..s }
    } else if key == "theme"@ {
        SettingsView { theme: value, ..s }
    } else if key == "bt_enable_dht"@ {
        SettingsView { bt_enable_dht: value == "true"@, ..s }
    } else if key == "bt_enable_pex"@ {
        SettingsView { bt_enable_pex: value == "true"@, ..s }
    } else if key == "bt_enable_lpd"@ {
        SettingsView { bt_enable_lpd: value == "true"@, ..s }
    } else if key == "bt_max_peers"@ {
        SettingsView { bt_max_peers: u32_or(value, 55), ..s }
    } else if key == "bt_seed_ratio"@ {
        SettingsView {
            bt_seed_ratio_permille: match spec_parse_permille(value) {
                Some(n) => n,
                None => 1000,
            },
            ..s
        }
    } else if key == "auto_update_trackers"@ {
        SettingsView { auto_update_trackers: value == "true"@, ..s }
    } else if key == "delete_files_on_remove"@ {
        SettingsView { delete_files_on_remove: value == "true"@, ..s }
    } else if key == "proxy_url"@ {
        SettingsView { proxy_url: value, ..s }
    } else if key == "connect_timeout"@ {
        SettingsView { connect_timeout: u64_or(value, 30), ..s }
    } else if key == "read_timeout"@ {
        SettingsView { read_timeout: u64_or(value, 60), ..s }
    } else if key == "max_retries"@ {
        SettingsView { max_retries: u32_or(value, 3), ..s }
    } else if key == "allocation_mode"@ {
        SettingsView { allocation_mode: value, ..s }
    } else {
        s
    }
}

fn read_u32(value: &str, fallback: u32) -> (r: u32)
    ensures
        r == u32_or(value@, fallback),
{
    match parse_u32(&chars_of(value)) {
        Some(n) => n,
        None => fallback,
    }
}

fn read_u64(value: &str, fallback: u64) -> (r: u64)
    ensures
        r == u64_or(value@, fallback),
{
    match parse_u64(&chars_of(value)) {
        Some(n) => n,
        None => fallback,
    }
}

impl Settings {
    /// The settings of a fresh installation, but for the download path.
    pub open spec fn is_default_but_path(v: SettingsView) -> bool {
        &&& v.max_concurrent_downloads == 5
        &&& v.max_connections_per_server == 8
        &&& v.split_count == 8
        &&& v.download_speed_limit == 0
        &&& v.upload_speed_limit == 0
        &&& v.user_agent == "gosh-dl/0.1.0"@
        &&& v.enable_notifications
        &&& v.close_to_tray
        &&& v.theme == "dark"@
        &&& v.bt_enable_dht
        &&& v.bt_enable_pex
        &&& v.bt_enable_lpd
        &&& v.bt_max_peers == 55
        &&& v.bt_seed_ratio_permille == 1000
        &&& v.auto_update_trackers
        &&& !v.delete_files_on_remove
        &&& v.proxy_url == Seq::<char>::empty()
        &&& v.connect_timeout == 30
        &&& v.read_timeout == 60
        &&& v.max_retries == 3
        &&& v.allocation_mode == "sparse"@
    }

    /// The settings of a fresh installation with the given download path.
    pub fn with_download_path(download_path: String) -> (s: Settings)
        ensures
            Settings::is_default_but_path(s@),
            s.download_path == download_path,
    {
        Settings {
            download_path,
            max_concurrent_downloads: 5,
            max_connections_per_server: 8,
            split_count: 8,
            download_speed_limit: 0,
            upload_speed_limit: 0,
            user_agent: owned("gosh-dl/0.1.0"),
            enable_notifications: true,
            close_to_tray: true,
            theme: owned("dark"),
            bt_enable_dht: true,
            bt_enable_pex: true,
            bt_enable_lpd: true,
            bt_max_peers: 55,
            bt_seed_ratio_permille: 1000,
            auto_update_trackers: true,
            delete_files_on_remove: false,
            proxy_url: String::new(),
            connect_timeout: 30,
            read_timeout: 60,
            max_retries: 3,
            allocation_mode: owned("sparse"),
        }
    }

    /// The download path of a fresh installation: the platform's download
    /// directory, else `Downloads` in the home directory, else `Downloads`.
    pub fn default_download_path() -> (r: String) {
        let home_downloads = match platform_home_dir() {
            Some(home) => Some(path_join(home.as_str(), "Downloads")),
            None => None,
        };
        download_path_from(platform_download_dir(), home_downloads, "Downloads")
    }

    /// Reads one row of the settings table; `home` is the user's home
    /// directory.
    pub fn apply(&mut self, key: &str, value: &str, home: &Option<String>)
        ensures
            final(self)@ == spec_apply(old(self)@, key@, value@, opt_view(*home)),
    {
        if str_eq(key, "download_path") {
            self.download_path = expand_tilde_with(value, home);
        } else if str_eq(key, "max_concurrent_downloads") {
            self.max_concurrent_downloads = read_u32(value, 5);
        } else if str_eq(key, "max_connections_per_server") {
            self.max_connections_per_server = read_u32(value, 8);
        } else if str_eq(key, "split_count") {
            self.split_count = read_u32(value, 8);
        } else if str_eq(key, "download_speed_limit") {
            self.download_speed_limit = read_u64(value, 0);
        } else if str_eq(key, "upload_speed_limit") {
            self.upload_speed_limit = read_u64(value, 0);
        } else if str_eq(key, "user_agent") {
            self.user_agent = owned(value);
        } else if str_eq(key, "enable_notifications") {
            self.enable_notifications = str_eq(value, "true");
        } else if str_eq(key, "close_to_tray") {
            self.close_to_tray = str_eq(value, "true");
        } else if str_eq(key, "theme") {
            self.theme = owned(value);
        } else if str_eq(key, "bt_enable_dht") {
            self.bt_enable_dht = str_eq(value, "true");
        } else if str_eq(key, "bt_enable_pex") {
            self.bt_enable_pex = str_eq(value, "true");
        } else if str_eq(key, "bt_enable_lpd") {
            self.bt_enable_lpd = str_eq(value, "true");
        } else if str_eq(key, "bt_max_peers") {
            self.bt_max_peers = read_u32(value, 55);
        } else if str_eq(key, "bt_seed_ratio") {
            self.bt_seed_ratio_permille = match parse_permille(value) {
                Some(n) => n,
                None => 1000,
            };
        } else if str_eq(key, "auto_update_trackers") {
            self.auto_update_trackers = str_eq(value, "true");
        } else if str_eq(key, "delete_files_on_remove") {
            self.delete_files_on_remove = str_eq(value, "true");
        } else if str_eq(key, "proxy_url") {
            self.proxy_url = owned(value);
        } else if str_eq(key, "connect_timeout") {
            self.connect_timeout = read_u64(value, 30);
        } else if str_eq(key, "read_timeout") {
            self.read_timeout = read_u64(value, 60);
        } else if str_eq(key, "max_retries") {
            self.max_retries = read_u32(value, 3);
        } else if str_eq(key, "allocation_mode") {
            self.allocation_mode = owned(value);
        }
    }

    /// The settings after the rows have been read in order.
    pub open spec fn spec_apply_all(
        s: SettingsView,
        rows: Seq<(Seq<char>, Seq<char>)>,
        home: Option<Seq<char>>,
    ) -> SettingsView
        decreases rows.len(),
    {
        if rows.len() == 0 {
            s
        } else {
            spec_apply(
                Settings::spec_apply_all(s, rows.drop_last(), home),
                rows.last().0,
                rows.last().1,
                home,
            )
        }
    }

    /// The settings that the rows of the settings table state, starting
    /// from `self`.
    pub fn apply_all(&mut self, rows: &Vec<(String, String)>, home: &Option<String>)
        ensures
            final(self)@ == Settings::spec_apply_all(
                old(self)@,
                crate::types::pairs_view(rows@),
                opt_view(*home),
            ),
    {
        let mut i: usize = 0;
        assert(crate::types::pairs_view(rows@.take(0)) =~= Seq::empty());
        while i < rows.len()
            invariant
                i <= rows.len(),
                self@ == Settings::spec_apply_all(
                    old(self)@,
                    crate::types::pairs_view(rows@.take(i as int)),
                    opt_view(*home),
                ),
            decreases rows.len() - i,
        {
            proof {
                let now = crate::types::pairs_view(rows@.take(i + 1));
                assert(now.drop_last() =~= crate::types::pairs_view(rows@.take(i as int)));
                assert(now.last() == (rows@[i as int].0@, rows@[i as int].1@));
            }
            self.apply(rows[i].0.as_str(), rows[i].1.as_str(), home);
            i += 1;
        }
        assert(rows@.take(rows.len() as int) == rows@);
    }

    /// The text of a flag.
    pub open spec fn flag_text(b: bool) -> Seq<char> {
        if b {
            "true"@
        } else {
            "false"@
        }
    }

    /// The rows of the settings table that stand for the settings.
    pub open spec fn spec_pairs(v: SettingsView) -> Seq<(Seq<char>, Seq<char>)> {
        seq![
            ("download_path"@, v.download_path),
            ("max_concurrent_downloads"@, decimal(v.max_concurrent_downloads as nat)),
            ("max_connections_per_server"@, decimal(v.max_connections_per_server as nat)),
            ("split_count"@, decimal(v.split_count as nat)),
            ("download_speed_limit"@, decimal(v.download_speed_limit as nat)),
            ("upload_speed_limit"@, decimal(v.upload_speed_limit as nat)),
            ("user_agent"@, v.user_agent),
            ("enable_notifications"@, Settings::flag_text(v.enable_notifications)),
            ("close_to_tray"@, Settings::flag_text(v.close_to_tray)),
            ("theme"@, v.theme),
            ("bt_enable_dht"@, Settings::flag_text(v.bt_enable_dht)),
            ("bt_enable_pex"@, Settings::flag_text(v.bt_enable_pex)),
            ("bt_enable_lpd"@, Settings::flag_text(v.bt_enable_lpd)),
            ("bt_max_peers"@, decimal(v.bt_max_peers as nat)),
            ("bt_seed_ratio"@, permille_text(v.bt_seed_ratio_permille)),
            ("auto_update_trackers"@, Settings::flag_text(v.auto_update_trackers)),
            ("delete_files_on_remove"@, Settings::flag_text(v.delete_files_on_remove)),
            ("proxy_url"@, v.proxy_url),
            ("connect_timeout"@, decimal(v.connect_timeout as nat)),
            ("read_timeout"@, decimal(v.read_timeout as nat)),
            ("max_retries"@, decimal(v.max_retries as nat)),
            ("allocation_mode"@, v.allocation_mode),
        ]
    }

    /// The rows of the settings table that stand for the settings.
    pub fn to_pairs(&self) -> (r: Vec<(String, String)>)
        ensures
            crate::types::pairs_view(r@) == Settings::spec_pairs(self@),
    {
        let mut out: Vec<(String, String)> = Vec::new();
        out.push((owned("download_path"), self.download_path.clone()));
        out.push(
            (owned("max_concurrent_downloads"), decimal_string(self.max_concurrent_downloads as u64)),
        );
        out.push(
            (
                owned("max_connections_per_server"),
                decimal_string(self.max_connections_per_server as u64),
            ),
        );
        out.push((owned("split_count"), decimal_string(self.split_count as u64)));
        out.push((owned("download_speed_limit"), decimal_string(self.download_speed_limit)));
        out.push((owned("upload_speed_limit"), decimal_string(self.upload_speed_limit)));
        out.push((owned("user_agent"), self.user_agent.clone()));
        out.push((owned("enable_notifications"), flag_string(self.enable_notifications)));
        out.push((owned("close_to_tray"), flag_string(self.close_to_tray)));
        out.push((owned("theme"), self.theme.clone()));
        out.push((owned("bt_enable_dht"), flag_string(self.bt_enable_dht)));
        out.push((owned("bt_enable_pex"), flag_string(self.bt_enable_pex)));
        out.push((owned("bt_enable_lpd"), flag_string(self.bt_enable_lpd)));
        out.push((owned("bt_max_peers"), decimal_string(self.bt_max_peers as u64)));
        out.push((owned("bt_seed_ratio"), format_permille(self.bt_seed_ratio_permille)));
        out.push((owned("auto_update_trackers"), flag_string(self.auto_update_trackers)));
        out.push((owned("delete_files_on_remove"), flag_string(self.delete_files_on_remove)));
        out.push((owned("proxy_url"), self.proxy_url.clone()));
        out.push((owned("connect_timeout"), decimal_string(self.connect_timeout)));
        out.push((owned("read_timeout"), decimal_string(self.read_timeout)));
        out.push((owned("max_retries"), decimal_string(self.max_retries as u64)));
        out.push((owned("allocation_mode"), self.allocation_mode.clone()));
        assert(crate::types::pairs_view(out@) =~= Settings::spec_pairs(self@));
        out
    }
}

fn flag_string(b: bool) -> (r: String)
    ensures
        r@ == Settings::flag_text(b),
{
    if b {
        owned("true")
    } else {
        owned("false")
    }
}

impl Default for Settings {
    fn default() -> (s: Settings)
        ensures
            Settings::is_default_but_path(s@),
    {
        Settings::with_download_path(Settings::default_download_path())
    }
}

impl Clone for Settings {
    fn clone(&self) -> (r: Self)
        ensures
            r@ == self@,
    {
        Settings {
            download_path: self.download_path.clone(),
            max_concurrent_downloads: self.max_concurrent_downloads,
            max_connections_per_server: self.max_connections_per_server,
            split_count: self.split_count,
            download_speed_limit: self.download_speed_limit,
            upload_speed_limit: self.upload_speed_limit,
            user_agent: self.user_agent.clone(),
            enable_notifications: self.enable_notifications,
            close_to_tray: self.close_to_tray,
            theme: self.theme.clone(),
            bt_enable_dht: self.bt_enable_dht,
            bt_enable_pex: self.bt_enable_pex,
            bt_enable_lpd: self.bt_enable_lpd,
            bt_max_peers: self.bt_max_peers,
            bt_seed_ratio_permille: self.bt_seed_ratio_permille,
            auto_update_trackers: self.auto_update_trackers,
            delete_files_on_remove: self.delete_files_on_remove,
            proxy_url: self.proxy_url.clone(),
            connect_timeout: self.connect_timeout,
            read_timeout: self.read_timeout,
            max_retries: self.max_retries,
            allocation_mode: self.allocation_mode.clone(),
        }
    }
}

// ---------------------------------------------------------------------------
// Kinds of links
// ---------------------------------------------------------------------------

/// The type of download that a link in lower case names: a magnet link by
/// its scheme, a torrent by the word `torrent` anywhere in it, else HTTP.
pub open spec fn spec_classify_lowered(lower: Seq<char>) -> DownloadType {
    if has_prefix(lower, "magnet:"@) {
        DownloadType::Magnet
    } else if contains_seq(lower, "torrent"@) {
        DownloadType::Torrent
    } else {
        DownloadType::Http
    }
}

/// The type of download that a link in lower case names.
pub fn classify_lowered(lower: &str) -> (r: DownloadType)
    ensures
        r == spec_classify_lowered(lower@),
{
    let l = chars_of(lower);
    if starts_with(&l, &chars_of("magnet:")) {
        DownloadType::Magnet
    } else if contains(&l, &chars_of("torrent")) {
        DownloadType::Torrent
    } else {
        DownloadType::Http
    }
}

/// The type of download that a link names, whatever the case of its
/// letters.
pub fn download_type_from_url(url: &str) -> (r: DownloadType)
    ensures
        r == spec_classify_lowered(lowercase_of(url@)),
{
    let lower = url.to_lowercase();
    classify_lowered(lower.as_str())
}

// ---------------------------------------------------------------------------
// The history of downloads
// ---------------------------------------------------------------------------

/// The file indices as decimal numbers.
pub open spec fn index_texts(indices: Seq<usize>) -> Seq<Seq<char>> {
    indices.map_values(|i: usize| decimal(i as nat))
}

/// A list of file indices as compact JSON: the decimal numbers between
/// square brackets, with commas between them and no blanks.
pub open spec fn indices_json(indices: Seq<usize>) -> Seq<char> {
    seq!['['] + joined(index_texts(indices), seq![',']) + seq![']']
}

/// What `serde_json::from_str` reads from a text as a list of file indices,
/// or nothing where the text is no such list.
pub uninterp spec fn indices_from_json(text: Seq<char>) -> Option<Seq<usize>>;

/// `serde_json::to_string` on a list of file indices: it writes the list
/// as compact JSON, and does not fail on a list of integers.
#[verifier::external_body]
fn indices_to_json(indices: &Vec<usize>) -> (r: Option<String>)
    ensures
        opt_view(r) == Some(indices_json(indices@)),
{
    serde_json::to_string(indices).ok()
}

/// `serde_json::from_str` for a list of file indices.
#[verifier::external_body]
fn indices_parse_json(text: &str) -> (r: Option<Vec<usize>>)
    ensures
        match r {
            Some(v) => indices_from_json(text@) == Some(v@),
            None => indices_from_json(text@) is None,
        },
{
    serde_json::from_str(text).ok()
}

/// One row of the `downloads` table of the front end as it was read: a
/// column that could not be read is absent.
#[derive(Debug)]
pub struct StoredDownload {
    pub id: Option<i64>,
    pub gid: Option<String>,
    pub name: Option<String>,
    pub url: Option<String>,
    pub magnet_uri: Option<String>,
    pub info_hash: Option<String>,
    pub download_type: Option<String>,
    pub status: Option<String>,
    pub total_size: Option<i64>,
    pub completed_size: Option<i64>,
    pub download_speed: Option<i64>,
    pub upload_speed: Option<i64>,
    pub save_path: Option<String>,
    pub created_at: Option<String>,
    pub completed_at: Option<String>,
    pub error_message: Option<String>,
    pub selected_files: Option<String>,
}

/// The text of an optional column, empty if absent.
pub open spec fn text_or_empty(t: Option<String>) -> Seq<char> {
    match t {
        Some(s) => s@,
        None => Seq::empty(),
    }
}

/// The count of an optional column, zero if absent.
pub open spec fn count_or_zero(n: Option<i64>) -> u64 {
    match n {
        Some(v) => crate::storage::sqlite::unwrap_u64(v),
        None => 0,
    }
}

/// `d` is the download that the row stands for: absent texts are empty,
/// absent numbers are zero, an unknown type is HTTP and an unknown status
/// is `Waiting`; connections and seeders are not stored.
pub open spec fn restores(row: StoredDownload, d: Download) -> bool {
    &&& d.id == match row.id {
        Some(v) => v,
        None => 0,
    }
    &&& d.gid@ == text_or_empty(row.gid)
    &&& d.name@ == text_or_empty(row.name)
    &&& d.url == row.url
    &&& d.magnet_uri == row.magnet_uri
    &&& d.info_hash == row.info_hash
    &&& d.download_type == DownloadType::spec_from_name(text_or_empty(row.download_type))
    &&& d.status == DownloadState::spec_from_name(text_or_empty(row.status))
    &&& d.total_size == count_or_zero(row.total_size)
    &&& d.completed_size == count_or_zero(row.completed_size)
    &&& d.download_speed == count_or_zero(row.download_speed)
    &&& d.upload_speed == count_or_zero(row.upload_speed)
    &&& d.save_path@ == text_or_empty(row.save_path)
    &&& d.created_at@ == text_or_empty(row.created_at)
    &&& d.completed_at == row.completed_at
    &&& d.error_message == row.error_message
    &&& d.connections == 0
    &&& d.seeders == 0
    &&& match d.selected_files {
        Some(v) => row.selected_files matches Some(t) && indices_from_json(t@) == Some(v@),
        None => row.selected_files matches Some(t) ==> indices_from_json(t@) is None,
    }
}

fn text_of(t: &Option<String>) -> (r: String)
    ensures
        r@ == text_or_empty(*t),
{
    match t {
        Some(s) => s.clone(),
        None => String::new(),
    }
}

fn count_of(n: Option<i64>) -> (r: u64)
    ensures
        r == count_or_zero(n),
{
    match n {
        Some(v) => crate::storage::sqlite::from_column(v),
        None => 0,
    }
}

/// The download that a row of the history stands for.
pub fn row_to_download(row: &StoredDownload) -> (d: Download)
    ensures
        restores(*row, d),
{
    let kind_text = text_of(&row.download_type);
    let status_text = text_of(&row.status);
    Download {
        id: match row.id {
            Some(v) => v,
            None => 0,
        },
        gid: text_of(&row.gid),
        name: text_of(&row.name),
        url: clone_opt(&row.url),
        magnet_uri: clone_opt(&row.magnet_uri),
        info_hash: clone_opt(&row.info_hash),
        download_type: DownloadType::from_name(kind_text.as_str()),
        status: DownloadState::from_name(status_text.as_str()),
        total_size: count_of(row.total_size),
        completed_size: count_of(row.completed_size),
        download_speed: count_of(row.download_speed),
        upload_speed: count_of(row.upload_speed),
        save_path: text_of(&row.save_path),
        created_at: text_of(&row.created_at),
        completed_at: clone_opt(&row.completed_at),
        error_message: clone_opt(&row.error_message),
        connections: 0,
        seeders: 0,
        selected_files: match &row.selected_files {
            Some(t) => indices_parse_json(t.as_str()),
            None => None,
        },
    }
}

/// The column of the selected files of a download that is saved to the
/// history: the file indices as JSON, if any are selected.
pub fn selected_files_column(download: &Download) -> (r: Option<String>)
    ensures
        match download.selected_files {
            Some(v) => r matches Some(t) && t@ == indices_json(v@),
            None => r is None,
        },
{
    match &download.selected_files {
        Some(v) => match indices_to_json(v) {
            Some(j) => Some(j),
            None => Some(String::new()),
        },
        None => None,
    }
}

// ---------------------------------------------------------------------------
// Schema
// ---------------------------------------------------------------------------

/// The first version of the schema.
pub const MIGRATION_001: &'static str =
    "CREATE TABLE IF NOT EXISTS schema_version (\n    version INTEGER PRIMARY KEY,\n    applied_at TEXT NOT NULL DEFAULT (datetime('now'))\n);\nCREATE TABLE IF NOT EXISTS settings (\n    key TEXT PRIMARY KEY,\n    value TEXT NOT NULL,\n    updated_at TEXT NOT NULL DEFAULT (datetime('now'))\n);\nCREATE TABLE IF NOT EXISTS downloads (\n    id INTEGER PRIMARY KEY AUTOINCREMENT,\n    gid TEXT NOT NULL UNIQUE,\n    name TEXT NOT NULL,\n    url TEXT,\n    magnet_uri TEXT,\n    info_hash TEXT,\n    download_type TEXT NOT NULL,\n    status TEXT NOT NULL,\n    total_size INTEGER NOT NULL DEFAULT 0,\n    completed_size INTEGER NOT NULL DEFAULT 0,\n    download_speed INTEGER NOT NULL DEFAULT 0,\n    upload_speed INTEGER NOT NULL DEFAULT 0,\n    save_path TEXT NOT NULL,\n    created_at TEXT NOT NULL,\n    completed_at TEXT,\n    error_message TEXT,\n    selected_files TEXT\n);\nCREATE INDEX IF NOT EXISTS idx_downloads_status ON downloads(status);\nINSERT OR IGNORE INTO schema_version (version) VALUES (1);\n";

/// The newest version of the schema.
pub const SCHEMA_VERSION: i64 = 1;

/// The versions that are still to be applied to a database at
/// `current_version`, in order.
pub open spec fn spec_pending_migrations(current_version: i64) -> Seq<i64> {
    if current_version < 1 {
        seq![1i64]
    } else {
        Seq::empty()
    }
}

/// The version of a database after the given migrations have been
/// applied.
pub open spec fn version_after(current_version: i64, applied: Seq<i64>) -> i64 {
    if applied.len() == 0 {
        current_version
    } else {
        applied.last()
    }
}

/// The versions that are still to be applied to a database at
/// `current_version`; version 0 is a database without schema.
pub fn pending_migrations(current_version: i64) -> (r: Vec<i64>)
    ensures
        r@ == spec_pending_migrations(current_version),
{
    let mut out: Vec<i64> = Vec::new();
    if current_version < 1 {
        out.push(1);
    }
    out
}

/// Migrating is idempotent: once the pending migrations are applied,
/// none is pending.
pub proof fn lemma_migration_idempotent(current_version: i64)
    ensures
        spec_pending_migrations(
            version_after(current_version, spec_pending_migrations(current_version)),
        ) == Seq::<i64>::empty(),
{
}

} // verus!
