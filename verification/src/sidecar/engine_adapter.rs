//! The adapter between the engine and the front end: it reads what the
//! front end sends (ids, options, speeds, file names) and renders what the
//! engine knows as front-end records.

use crate::config::DirProbe;
use crate::engine::{
    spec_torrent_refusal, CancelPlan, DownloadEngine, MagnetAdded, StatusGroup, TorrentAdded,
};
use crate::torrent::bencode::describes;
use crate::torrent::magnet::{magnet_refusal, spec_parse_magnet};
use crate::error::{EngineError, EngineErrorView};
use crate::sidecar::db::{parse_permille, spec_parse_permille};
use crate::sidecar::error::{Error, ErrorView};
use crate::sidecar::types::{
    Download, DownloadOptions as FrontendOptions, DownloadState, DownloadType, GlobalStat,
};
use crate::text::{
    chars_of, concat, control, decimal, decimal_string, eq_ignore_ascii_case,
    eq_ignoring_ascii_case, find, is_control, join2, occurs_at, owned, parse_u64, parse_usize,
    rows_view, slice, spec_find, spec_parse_u64, spec_parse_usize, spec_split, split_on, string_of,
    trim, trimmed, uppercase_of,
};
use crate::types::{
    canonical_uuid_text, clone_opt, is_random_uuid, opt_view, parse_id_text, rfc3339_text_of, spec_parse_checksum,
    spec_parse_priority, strings_view, uuid_parse_of, DownloadEvent, DownloadId, DownloadKind,
    DownloadOptionsView, DownloadPriority, DownloadOptions, DownloadStateView, DownloadStatus,
    DownloadStatusView, ExpectedChecksum, PeerInfo as EnginePeerInfo, StateTag, TorrentFile,
};
use vstd::prelude::*;

verus! {

// ---------------------------------------------------------------------------
// File names
// ---------------------------------------------------------------------------

/// The characters that no file name may hold on Windows.
pub open spec fn is_illegal(c: char) -> bool {
    c == '<' || c == '>' || c == ':' || c == '"' || c == '/' || c == '\\' || c == '|' || c == '?'
        || c == '*'
}

/// The character that stands in a sanitized name for `c`.
pub open spec fn replaced_char(c: char) -> char {
    if is_illegal(c) || is_control(c) {
        '_'
    } else {
        c
    }
}

/// `s` without its trailing dots and spaces.
pub open spec fn strip_dots_spaces(s: Seq<char>) -> Seq<char>
    decreases s.len(),
{
    if s.len() > 0 && (s.last() == '.' || s.last() == ' ') {
        strip_dots_spaces(s.drop_last())
    } else {
        s
    }
}

/// The part of a name before its first dot.
pub open spec fn stem_of(s: Seq<char>) -> Seq<char> {
    match spec_find(s, seq!['.']) {
        Some(i) => s.take(i),
        None => s,
    }
}

/// The names of the Windows devices, whatever the case of their letters:
/// `CON`, `PRN`, `AUX`, `NUL`, and `COM` or `LPT` with a digit from 1 to 9.
pub open spec fn is_reserved(stem: Seq<char>) -> bool {
    ||| eq_ignoring_ascii_case(stem, "CON"@)
    ||| eq_ignoring_ascii_case(stem, "PRN"@)
    ||| eq_ignoring_ascii_case(stem, "AUX"@)
    ||| eq_ignoring_ascii_case(stem, "NUL"@)
    ||| (stem.len() == 4 && (eq_ignoring_ascii_case(stem.take(3), "COM"@)
        || eq_ignoring_ascii_case(stem.take(3), "LPT"@)) && 0x31 <= stem[3] as u32 <= 0x39)
}

/// A file name made fit for every platform: illegal and control characters
/// become `_`, trailing dots and spaces go, the name of a Windows device
/// gets a `_` in front, and what is empty then becomes `download`.
pub open spec fn spec_sanitize(name: Seq<char>) -> Seq<char> {
    let s = strip_dots_spaces(name.map_values(|c: char| replaced_char(c)));
    let t = if is_reserved(stem_of(s)) {
        seq!['_'] + s
    } else {
        s
    };
    if t.len() == 0 {
        "download"@
    } else {
        t
    }
}

fn reserved(stem: &Vec<char>) -> (r: bool)
    ensures
        r == is_reserved(stem@),
{
    if eq_ignore_ascii_case(stem, &chars_of("CON")) || eq_ignore_ascii_case(
        stem,
        &chars_of("PRN"),
    ) || eq_ignore_ascii_case(stem, &chars_of("AUX")) || eq_ignore_ascii_case(
        stem,
        &chars_of("NUL"),
    ) {
        return true;
    }
    if stem.len() != 4 {
        return false;
    }
    let head = slice(stem, 0, 3);
    assert(head@ == stem@.take(3));
    let digit: u32 = stem[3] as u32;
    (eq_ignore_ascii_case(&head, &chars_of("COM")) || eq_ignore_ascii_case(
        &head,
        &chars_of("LPT"),
    )) && 0x31 <= digit && digit <= 0x39
}

/// A file name made fit for every platform.
pub fn sanitize_filename(name: &str) -> (r: String)
    ensures
        r@ == spec_sanitize(name@),
        r@.len() > 0,
{
    let raw = chars_of(name);
    let mut clean: Vec<char> = Vec::new();
    let mut i: usize = 0;
    while i < raw.len()
        invariant
            i <= raw.len(),
            clean@ == raw@.take(i as int).map_values(|c: char| replaced_char(c)),
        decreases raw.len() - i,
    {
        let c = raw[i];
        let illegal = c == '<' || c == '>' || c == ':' || c == '"' || c == '/' || c == '\\' || c
            == '|' || c == '?' || c == '*';
        let ghost before = clean@;
        clean.push(
            if illegal || control(c) {
                '_'
            } else {
                c
            },
        );
        assert(clean@ =~= raw@.take(i + 1).map_values(|c: char| replaced_char(c)));
        i += 1;
    }
    assert(raw@.take(raw.len() as int) == raw@);
    let ghost replaced = clean@;
    let mut end: usize = clean.len();
    assert(clean@.subrange(0, end as int) == clean@);
    while end > 0 && (clean[end - 1] == '.' || clean[end - 1] == ' ')
        invariant
            end <= clean.len(),
            strip_dots_spaces(clean@) == strip_dots_spaces(clean@.subrange(0, end as int)),
        decreases end,
    {
        assert(clean@.subrange(0, end as int).drop_last() == clean@.subrange(0, end - 1));
        end -= 1;
    }
    let stripped = slice(&clean, 0, end);
    assert(stripped@ == strip_dots_spaces(replaced));
    let dot: Vec<char> = vec!['.'];
    assert(dot@ == seq!['.']);
    let stem = match find(&stripped, &dot) {
        Some(at) => {
            assert(stripped@.take(at as int) == stripped@.subrange(0, at as int));
            slice(&stripped, 0, at)
        },
        None => {
            assert(stripped@.subrange(0, stripped.len() as int) == stripped@);
            slice(&stripped, 0, stripped.len())
        },
    };
    let named = if reserved(&stem) {
        let prefix: Vec<char> = vec!['_'];
        assert(prefix@ == seq!['_']);
        concat(&prefix, &stripped)
    } else {
        stripped
    };
    if named.len() == 0 {
        proof {
            reveal_strlit("download");
        }
        owned("download")
    } else {
        string_of(&named)
    }
}

// ---------------------------------------------------------------------------
// Speeds
// ---------------------------------------------------------------------------

/// `n` times `factor`, if the product fits.
pub open spec fn scaled(n: Option<u64>, factor: int) -> Option<u64> {
    match n {
        Some(v) => if v * factor <= u64::MAX {
            Some((v * factor) as u64)
        } else {
            None
        },
        None => None,
    }
}

/// The bytes a second that an upper-case speed text states: a number, or a
/// number followed by `K`, `M` or `G` for the powers of 1024.
pub open spec fn spec_parse_speed_upper(u: Seq<char>) -> Option<u64> {
    if u.len() > 0 && u.last() == 'K' {
        scaled(spec_parse_u64(u.drop_last()), 1024)
    } else if u.len() > 0 && u.last() == 'M' {
        scaled(spec_parse_u64(u.drop_last()), 1_048_576)
    } else if u.len() > 0 && u.last() == 'G' {
        scaled(spec_parse_u64(u.drop_last()), 1_073_741_824)
    } else {
        spec_parse_u64(u)
    }
}

/// The bytes a second that a speed text states: the text is trimmed and
/// put in upper case first.
pub open spec fn spec_parse_speed(s: Seq<char>) -> Option<u64> {
    spec_parse_speed_upper(uppercase_of(trimmed(s)))
}

fn scale(n: Option<u64>, factor: u64) -> (r: Option<u64>)
    ensures
        r == scaled(n, factor as int),
{
    match n {
        Some(v) => v.checked_mul(factor),
        None => None,
    }
}

/// Reads a speed text that is trimmed and in upper case already.
pub fn parse_speed_upper(upper: &str) -> (r: Option<u64>)
    ensures
        r == spec_parse_speed_upper(upper@),
{
    let u = chars_of(upper);
    let n = u.len();
    if n > 0 && (u[n - 1] == 'K' || u[n - 1] == 'M' || u[n - 1] == 'G') {
        let number = slice(&u, 0, n - 1);
        assert(number@ == u@.drop_last());
        let value = parse_u64(&number);
        if u[n - 1] == 'K' {
            scale(value, 1024)
        } else if u[n - 1] == 'M' {
            scale(value, 1024 * 1024)
        } else {
            scale(value, 1024 * 1024 * 1024)
        }
    } else {
        parse_u64(&u)
    }
}

/// Reads a speed text such as `1M` or `500K` as bytes a second.
pub fn parse_speed(s: &str) -> (r: Option<u64>)
    ensures
        r == spec_parse_speed(s@),
{
    let t = trim(&chars_of(s));
    let text = string_of(&t);
    let upper = text.as_str().to_uppercase();
    parse_speed_upper(upper.as_str())
}

// ---------------------------------------------------------------------------
// Download ids
// ---------------------------------------------------------------------------

/// Reads a download id at the boundary: canonical UUID text, or the legacy
/// form of 16 hexadecimal digits. A text that is neither names no download.
pub fn parse_gid(gid: &str) -> (r: Result<DownloadId, EngineError>)
    ensures
        match r {
            Ok(id) => parse_id_text(uuid_parse_of(gid@), gid@) == Some(id),
            Err(e) => parse_id_text(uuid_parse_of(gid@), gid@) is None && e@
                == EngineErrorView::NotFound("Invalid GID: "@ + gid@),
        },
{
    match DownloadId::parse(gid) {
        Some(id) => Ok(id),
        None => Err(EngineError::NotFound(join2("Invalid GID: ", gid))),
    }
}

/// Reads a download id for the RPC handlers.
pub fn parse_gid_public(gid: &str) -> (r: Result<DownloadId, Error>)
    ensures
        match r {
            Ok(id) => parse_id_text(uuid_parse_of(gid@), gid@) == Some(id),
            Err(e) => parse_id_text(uuid_parse_of(gid@), gid@) is None && e@
                == ErrorView::NotFound("Invalid GID: "@ + gid@),
        },
{
    match parse_gid(gid) {
        Ok(id) => Ok(id),
        Err(e) => Err(Error::from_engine(e)),
    }
}

// ---------------------------------------------------------------------------
// Options
// ---------------------------------------------------------------------------

/// The name and value of a header line `Name: value`, both trimmed; nothing
/// for a line without a colon.
pub open spec fn header_pair(line: Seq<char>) -> Option<(Seq<char>, Seq<char>)> {
    match spec_find(line, seq![':']) {
        Some(i) => Some((trimmed(line.take(i)), trimmed(line.skip(i + 1)))),
        None => None,
    }
}

/// The headers that a list of header lines states, in order; lines without
/// a colon are passed over.
pub open spec fn parsed_headers(lines: Seq<Seq<char>>) -> Seq<(Seq<char>, Seq<char>)>
    decreases lines.len(),
{
    if lines.len() == 0 {
        Seq::empty()
    } else {
        match header_pair(lines.last()) {
            Some(p) => parsed_headers(lines.drop_last()).push(p),
            None => parsed_headers(lines.drop_last()),
        }
    }
}

/// The numbers among the parts, in order; parts that are no number are
/// passed over.
pub open spec fn parsed_indices(parts: Seq<Seq<char>>) -> Seq<usize>
    decreases parts.len(),
{
    if parts.len() == 0 {
        Seq::empty()
    } else {
        match spec_parse_usize(parts.last()) {
            Some(n) => parsed_indices(parts.drop_last()).push(n),
            None => parsed_indices(parts.drop_last()),
        }
    }
}

/// The number that an optional text states.
pub open spec fn opt_number(text: Option<String>) -> Option<usize> {
    match text {
        Some(t) => spec_parse_usize(t@),
        None => None,
    }
}

/// The speed that an optional text states.
pub open spec fn opt_speed(text: Option<String>) -> Option<u64> {
    match text {
        Some(t) => spec_parse_speed(t@),
        None => None,
    }
}

/// The options of the engine that the options of the front end stand for;
/// the seed ratio is read as decimal text and kept in thousandths.
pub open spec fn spec_convert_options(opts: FrontendOptions) -> DownloadOptionsView {
    DownloadOptionsView {
        priority: match opts.priority {
            Some(p) => match spec_parse_priority(p@) {
                Some(v) => v,
                None => DownloadPriority::Normal,
            },
            None => DownloadPriority::Normal,
        },
        save_dir: opt_view(opts.dir),
        filename: match opts.out {
            Some(n) => Some(spec_sanitize(n@)),
            None => None,
        },
        user_agent: opt_view(opts.user_agent),
        referer: opt_view(opts.referer),
        headers: match opts.header {
            Some(lines) => parsed_headers(strings_view(lines@)),
            None => Seq::empty(),
        },
        max_connections: match opt_number(opts.split) {
            Some(n) => Some(n),
            None => opt_number(opts.max_connection_per_server),
        },
        max_download_speed: opt_speed(opts.max_download_limit),
        max_upload_speed: opt_speed(opts.max_upload_limit),
        seed_ratio_permille: match opts.seed_ratio {
            Some(t) => spec_parse_permille(t@),
            None => None,
        },
        selected_files: match opts.select_file {
            Some(t) => Some(parsed_indices(spec_split(t@, ','))),
            None => None,
        },
        checksum: match opts.checksum {
            Some(t) => spec_parse_checksum(t@),
            None => None,
        },
        mirrors: match opts.mirrors {
            Some(m) => strings_view(m@),
            None => Seq::empty(),
        },
        sequential: opts.sequential,
    }
}

fn parse_header_line(line: &str) -> (r: Option<(String, String)>)
    ensures
        match r {
            Some(p) => header_pair(line@) == Some((p.0@, p.1@)),
            None => header_pair(line@) is None,
        },
{
    let text = chars_of(line);
    let colon: Vec<char> = vec![':'];
    assert(colon@ == seq![':']);
    match find(&text, &colon) {
        Some(at) => {
            assert(occurs_at(text@, colon@, at as int));
            assert(colon@.len() == 1);
            assert(at + 1 <= text.len());
            let name = slice(&text, 0, at);
            let value = slice(&text, at + 1, text.len());
            assert(name@ == text@.take(at as int));
            assert(value@ == text@.skip(at + 1));
            Some((string_of(&trim(&name)), string_of(&trim(&value))))
        },
        None => None,
    }
}

fn parse_headers(lines: &Vec<String>) -> (r: Vec<(String, String)>)
    ensures
        crate::types::pairs_view(r@) == parsed_headers(strings_view(lines@)),
{
    let mut out: Vec<(String, String)> = Vec::new();
    let mut i: usize = 0;
    assert(crate::types::pairs_view(out@) =~= Seq::empty());
    assert(strings_view(lines@.take(0)) =~= Seq::empty());
    while i < lines.len()
        invariant
            i <= lines.len(),
            crate::types::pairs_view(out@) == parsed_headers(strings_view(lines@.take(i as int))),
        decreases lines.len() - i,
    {
        proof {
            let now = strings_view(lines@.take(i + 1));
            assert(now.drop_last() =~= strings_view(lines@.take(i as int)));
            assert(now.last() == lines@[i as int]@);
        }
        match parse_header_line(lines[i].as_str()) {
            Some(p) => {
                let ghost before = crate::types::pairs_view(out@);
                let ghost pair = (p.0@, p.1@);
                out.push(p);
                assert(crate::types::pairs_view(out@) =~= before.push(pair));
            },
            None => {},
        }
        i += 1;
    }
    assert(lines@.take(lines.len() as int) == lines@);
    out
}

fn parse_indices(text: &str) -> (r: Vec<usize>)
    ensures
        r@ == parsed_indices(spec_split(text@, ',')),
{
    let parts = split_on(&chars_of(text), ',');
    let mut out: Vec<usize> = Vec::new();
    let mut i: usize = 0;
    assert(rows_view(parts@.take(0)) =~= Seq::empty());
    while i < parts.len()
        invariant
            i <= parts.len(),
            out@ == parsed_indices(rows_view(parts@.take(i as int))),
        decreases parts.len() - i,
    {
        proof {
            let now = rows_view(parts@.take(i + 1));
            assert(now.drop_last() =~= rows_view(parts@.take(i as int)));
            assert(now.last() == parts@[i as int]@);
        }
        match parse_usize(&parts[i]) {
            Some(n) => {
                out.push(n);
            },
            None => {},
        }
        i += 1;
    }
    assert(parts@.take(parts.len() as int) == parts@);
    out
}

fn number_of(text: &Option<String>) -> (r: Option<usize>)
    ensures
        r == opt_number(*text),
{
    match text {
        Some(t) => parse_usize(&chars_of(t.as_str())),
        None => None,
    }
}

fn speed_of(text: &Option<String>) -> (r: Option<u64>)
    ensures
        r == opt_speed(*text),
{
    match text {
        Some(t) => parse_speed(t.as_str()),
        None => None,
    }
}

/// The options of the engine that the options of the front end stand for.
pub fn convert_options(opts: FrontendOptions) -> (r: DownloadOptions)
    ensures
        r@ == spec_convert_options(opts),
{
    let headers = match &opts.header {
        Some(lines) => parse_headers(lines),
        None => Vec::new(),
    };
    assert(opts.header is None ==> crate::types::pairs_view(headers@) =~= Seq::empty());
    let priority = match &opts.priority {
        Some(p) => match DownloadPriority::parse(p.as_str()) {
            Some(v) => v,
            None => DownloadPriority::Normal,
        },
        None => DownloadPriority::Normal,
    };
    let checksum = match &opts.checksum {
        Some(t) => ExpectedChecksum::parse(t.as_str()),
        None => None,
    };
    let max_connections = match number_of(&opts.split) {
        Some(n) => Some(n),
        None => number_of(&opts.max_connection_per_server),
    };
    let seed_ratio_permille = match &opts.seed_ratio {
        Some(t) => parse_permille(t.as_str()),
        None => None,
    };
    let max_download_speed = speed_of(&opts.max_download_limit);
    let max_upload_speed = speed_of(&opts.max_upload_limit);
    let selected_files = match &opts.select_file {
        Some(t) => Some(parse_indices(t.as_str())),
        None => None,
    };
    let filename = match &opts.out {
        Some(n) => Some(sanitize_filename(n.as_str())),
        None => None,
    };
    let mirrors = match opts.mirrors {
        Some(m) => m,
        None => Vec::new(),
    };
    assert(opts.mirrors is None ==> strings_view(mirrors@) =~= Seq::empty());
    DownloadOptions {
        priority,
        save_dir: opts.dir,
        filename,
        user_agent: opts.user_agent,
        referer: opts.referer,
        headers,
        max_connections,
        max_download_speed,
        max_upload_speed,
        seed_ratio_permille,
        selected_files,
        checksum,
        mirrors,
        sequential: opts.sequential,
    }
}

// ---------------------------------------------------------------------------
// Statuses
// ---------------------------------------------------------------------------

/// The front end's type for a kind of download.
pub open spec fn type_of_kind(kind: DownloadKind) -> DownloadType {
    match kind {
        DownloadKind::Http => DownloadType::Http,
        DownloadKind::Torrent => DownloadType::Torrent,
        DownloadKind::Magnet => DownloadType::Magnet,
    }
}

/// The front end's state for a state of the engine: a queued download
/// waits, a connecting, downloading or seeding one is active.
pub open spec fn state_of_tag(tag: StateTag) -> DownloadState {
    match tag {
        StateTag::Queued => DownloadState::Waiting,
        StateTag::Connecting => DownloadState::Active,
        StateTag::Downloading => DownloadState::Active,
        StateTag::Seeding => DownloadState::Active,
        StateTag::Paused => DownloadState::Paused,
        StateTag::Completed => DownloadState::Complete,
        StateTag::Error => DownloadState::Error,
    }
}

/// The indices of the files that are selected, in order.
pub open spec fn selected_indices(files: Seq<TorrentFile>) -> Seq<usize>
    decreases files.len(),
{
    if files.len() == 0 {
        Seq::empty()
    } else if files.last().selected {
        selected_indices(files.drop_last()).push(files.last().index)
    } else {
        selected_indices(files.drop_last())
    }
}

/// `d` is the front end's record of the status: the id as canonical UUID
/// text, sizes and speeds as they are with zero for an unknown total, times
/// as RFC 3339 text (empty or absent where the calendar has none), the
/// message of a failed download, and the indices of the selected files of a
/// torrent.
pub open spec fn renders(status: DownloadStatusView, d: Download) -> bool {
    &&& d.id == 0
    &&& d.gid@ == canonical_uuid_text(status.id.value)
    &&& d.name@ == status.metadata.name
    &&& opt_view(d.url) == status.metadata.url
    &&& opt_view(d.magnet_uri) == status.metadata.magnet_uri
    &&& opt_view(d.info_hash) == status.metadata.info_hash
    &&& d.download_type == type_of_kind(status.kind)
    &&& d.status == state_of_tag(status.state.tag())
    &&& d.total_size == match status.progress.total_size {
        Some(n) => n,
        None => 0,
    }
    &&& d.completed_size == status.progress.completed_size
    &&& d.download_speed == status.progress.download_speed
    &&& d.upload_speed == status.progress.upload_speed
    &&& d.save_path@ == status.metadata.save_dir
    &&& d.created_at@ == match rfc3339_text_of(
        status.created_at.secs,
        status.created_at.nanos,
    ) {
        Some(t) => t,
        None => Seq::empty(),
    }
    &&& opt_view(d.completed_at) == match status.completed_at {
        Some(t) => rfc3339_text_of(t.secs, t.nanos),
        None => None,
    }
    &&& opt_view(d.error_message) == match status.state {
        DownloadStateView::Error { message, .. } => Some(message),
        _ => None,
    }
    &&& d.connections == status.progress.connections
    &&& d.seeders == status.progress.seeders
    &&& match (d.selected_files, status.files) {
        (Some(sel), Some(files)) => sel@ == selected_indices(files),
        (None, None) => true,
        _ => false,
    }
}

/// The front end's record of a status.
pub fn convert_status(status: DownloadStatus) -> (d: Download)
    ensures
        renders(status@, d),
{
    let download_type = match status.kind {
        DownloadKind::Http => DownloadType::Http,
        DownloadKind::Torrent => DownloadType::Torrent,
        DownloadKind::Magnet => DownloadType::Magnet,
    };
    let state = match status.state.tag() {
        StateTag::Queued => DownloadState::Waiting,
        StateTag::Connecting => DownloadState::Active,
        StateTag::Downloading => DownloadState::Active,
        StateTag::Seeding => DownloadState::Active,
        StateTag::Paused => DownloadState::Paused,
        StateTag::Completed => DownloadState::Complete,
        StateTag::Error => DownloadState::Error,
    };
    let error_message = match &status.state {
        crate::types::DownloadState::Error { message, .. } => Some(message.clone()),
        _ => None,
    };
    let selected_files = match &status.torrent_info {
        Some(info) => {
            let mut sel: Vec<usize> = Vec::new();
            let mut i: usize = 0;
            while i < info.files.len()
                invariant
                    i <= info.files.len(),
                    sel@ == selected_indices(info.files@.take(i as int)),
                decreases info.files.len() - i,
            {
                proof {
                    assert(info.files@.take(i + 1).drop_last() == info.files@.take(i as int));
                    assert(info.files@.take(i + 1).last() == info.files@[i as int]);
                }
                if info.files[i].selected {
                    sel.push(info.files[i].index);
                }
                i += 1;
            }
            assert(info.files@.take(info.files.len() as int) == info.files@);
            Some(sel)
        },
        None => None,
    };
    let created_at = match status.created_at.to_rfc3339() {
        Some(t) => t,
        None => String::new(),
    };
    let completed_at = match &status.completed_at {
        Some(t) => t.to_rfc3339(),
        None => None,
    };
    Download {
        id: 0,
        gid: status.id.to_text(),
        name: status.metadata.name.clone(),
        url: clone_opt(&status.metadata.url),
        magnet_uri: clone_opt(&status.metadata.magnet_uri),
        info_hash: clone_opt(&status.metadata.info_hash),
        download_type,
        status: state,
        total_size: match status.progress.total_size {
            Some(n) => n,
            None => 0,
        },
        completed_size: status.progress.completed_size,
        download_speed: status.progress.download_speed,
        upload_speed: status.progress.upload_speed,
        save_path: status.metadata.save_dir.clone(),
        created_at,
        completed_at,
        error_message,
        connections: status.progress.connections,
        seeders: status.progress.seeders,
        selected_files,
    }
}

/// One file of a torrent as the front end shows it.
#[derive(Debug)]
pub struct TorrentFileInfo {
    pub path: String,
    pub size: u64,
    pub completed: u64,
    pub selected: bool,
}

/// One peer of a torrent as the front end shows it.
#[derive(Debug)]
pub struct PeerInfo {
    pub ip: String,
    pub port: u16,
    pub client: Option<String>,
    pub download_speed: u64,
    pub upload_speed: u64,
}

/// The front end's record of a file of a torrent.
pub open spec fn file_info_of(f: TorrentFile) -> TorrentFileInfo {
    TorrentFileInfo { path: f.path, size: f.size, completed: f.completed, selected: f.selected }
}

/// The front end's record of a peer.
pub open spec fn peer_info_of(p: EnginePeerInfo) -> PeerInfo {
    PeerInfo {
        ip: p.ip,
        port: p.port,
        client: p.client,
        download_speed: p.download_speed,
        upload_speed: p.upload_speed,
    }
}

/// The front end's records of a list of statuses.
pub fn convert_all(statuses: Vec<DownloadStatus>) -> (r: Vec<Download>)
    ensures
        r@.len() == statuses@.len(),
        forall|i: int| 0 <= i < r@.len() ==> renders(statuses@[i]@, #[trigger] r@[i]),
{
    let mut out: Vec<Download> = Vec::new();
    let mut rest = statuses;
    let ghost all = rest@;
    let n = rest.len();
    let mut i: usize = 0;
    while i < n
        invariant
            i <= n,
            n == all.len(),
            rest@ == all.subrange(0, n - i),
            out@.len() == i,
            forall|k: int| 0 <= k < i ==> renders(all[n - 1 - k]@, #[trigger] out@[k]),
        decreases n - i,
    {
        let last = rest.pop();
        match last {
            Some(status) => {
                assert(status == all[n - 1 - i]);
                out.push(convert_status(status));
                assert(rest@ =~= all.subrange(0, n - i - 1));
            },
            None => {},
        }
        i += 1;
    }
    let mut ordered: Vec<Download> = Vec::new();
    let ghost made = out@;
    let mut k: usize = 0;
    while k < n
        invariant
            k <= n,
            n == all.len(),
            out@ == made.subrange(0, n - k),
            made.len() == n,
            ordered@.len() == k,
            forall|j: int| 0 <= j < n ==> renders(all[n - 1 - j]@, #[trigger] made[j]),
            forall|j: int| 0 <= j < k ==> renders(all[j]@, #[trigger] ordered@[j]),
        decreases n - k,
    {
        match out.pop() {
            Some(d) => {
                assert(d == made[n - 1 - k]);
                ordered.push(d);
                assert(out@ =~= made.subrange(0, n - k - 1));
            },
            None => {},
        }
        k += 1;
    }
    ordered
}

/// The adapter between the front end and one engine.
#[derive(Debug)]
pub struct EngineAdapter {
    pub engine: DownloadEngine,
}

/// What adding a list of URLs did.
#[derive(Debug)]
pub struct UrlsAdded {
    /// The ids of the downloads that were added, in order.
    pub gids: Vec<String>,
    /// The events of these downloads, in order.
    pub events: Vec<DownloadEvent>,
    /// Why the run ended before the last URL, if it did.
    pub refused: Option<EngineError>,
}

/// The events of two steps in a row keep the lifecycle table if those of
/// each step do.
pub proof fn lemma_lawful_concat(a: Seq<DownloadEvent>, b: Seq<DownloadEvent>)
    requires
        crate::engine::lawful(a),
        crate::engine::lawful(b),
    ensures
        crate::engine::lawful(a + b),
{
    let all = a + b;
    assert forall|i: int| 0 <= i < all.len() implies ((
    #[trigger] all[i]) matches DownloadEvent::StateChanged { old_state, new_state, .. }
        ==> crate::types::transition_allowed(old_state.spec_tag(), new_state.spec_tag())) by {
        if i < a.len() {
            assert(all[i] == a[i]);
        } else {
            assert(all[i] == b[i - a.len()]);
        }
    }
}

impl EngineAdapter {
    pub open spec fn wf(&self) -> bool {
        self.engine.wf()
    }

    /// An adapter for the given engine.
    pub fn new(engine: DownloadEngine) -> (a: EngineAdapter)
        ensures
            a.engine == engine,
    {
        EngineAdapter { engine }
    }

    /// The engine.
    pub fn engine(&self) -> (e: &DownloadEngine)
        ensures
            *e == self.engine,
    {
        &self.engine
    }

    /// Adds an HTTP download with the options of the front end and returns
    /// its id as canonical UUID text.
    pub fn add_download(
        &mut self,
        url: String,
        options: Option<FrontendOptions>,
    ) -> (r: Result<(String, Vec<DownloadEvent>), EngineError>)
        requires
            old(self).wf(),
        ensures
            final(self).wf(),
            r matches Err(e) ==> {
                &&& final(self).engine == old(self).engine
                &&& match DownloadEngine::spec_url_refusal(url@) {
                    Some(refusal) => e@ == refusal,
                    None => e@ == EngineErrorView::Internal("duplicate download id"@) && old(
                        self,
                    ).engine.holds_random_id(),
                }
            },
            DownloadEngine::spec_url_refusal(url@) is None && !old(self).engine.holds_random_id()
                ==> r is Ok,
            r matches Ok(added) ==> {
                let id = final(self).engine.downloads@.last().status.id;
                &&& DownloadEngine::spec_url_refusal(url@) is None
                &&& is_random_uuid(id.value)
                &&& added.0@ == canonical_uuid_text(id.value)
                &&& !old(self).engine.contains(id)
                &&& final(self).engine.contains(id)
                &&& final(self).engine.downloads@.drop_last() == old(self).engine.downloads@
                &&& final(self).engine.downloads@.last().status.metadata@.url == Some(url@)
                &&& old(self).engine.emitted_ok(final(self).engine, id, added.1@)
            },
    {
        let opts = match options {
            Some(o) => convert_options(o),
            None => DownloadOptions::default(),
        };
        match self.engine.add_http(url.as_str(), opts) {
            Ok((id, events)) => Ok((id.to_text(), events)),
            Err(e) => Err(e),
        }
    }

    /// The downloads from index `from` on are those of the first `k` of the
    /// URLs, in order, and none of these URLs is refused.
    pub open spec fn holds_urls(&self, from: int, urls: Seq<String>, k: int) -> bool {
        &&& self.engine.downloads@.len() == from + k
        &&& forall|j: int|
            0 <= j < k ==> {
                &&& (#[trigger] self.engine.downloads@[from + j]).status.metadata@.url == Some(
                    urls[j]@,
                )
                &&& DownloadEngine::spec_url_refusal(urls[j]@) is None
            }
    }

    /// Adds one HTTP download for each URL, all with the same options, in
    /// order. The first URL that is refused ends the run; the downloads
    /// before it stay, and their ids and events are handed out with the
    /// refusal.
    pub fn add_urls(
        &mut self,
        urls: &Vec<String>,
        options: Option<FrontendOptions>,
    ) -> (r: UrlsAdded)
        requires
            old(self).wf(),
        ensures
            final(self).wf(),
            final(self).engine.downloads@.take(old(self).engine.downloads@.len() as int) == old(
                self,
            ).engine.downloads@,
            r.gids@.len() <= urls@.len(),
            final(self).holds_urls(
                old(self).engine.downloads@.len() as int,
                urls@,
                r.gids@.len() as int,
            ),
            forall|j: int|
                0 <= j < r.gids@.len() ==> (#[trigger] r.gids@[j])@ == canonical_uuid_text(
                    final(self).engine.downloads@[old(self).engine.downloads@.len()
                        + j].status.id.value,
                ),
            crate::engine::lawful(r.events@),
            match r.refused {
                None => r.gids@.len() == urls@.len(),
                Some(e) => r.gids@.len() < urls@.len() && match DownloadEngine::spec_url_refusal(
                    urls@[r.gids@.len() as int]@,
                ) {
                    Some(refusal) => e@ == refusal,
                    None => e@ == EngineErrorView::Internal("duplicate download id"@)
                        && final(self).engine.holds_random_id(),
                },
            },
            urls@.len() > 0 && DownloadEngine::spec_url_refusal(urls@[0]@) is None && !old(
                self,
            ).engine.holds_random_id() ==> r.gids@.len() >= 1,
    {
        let opts = match options {
            Some(o) => convert_options(o),
            None => DownloadOptions::default(),
        };
        let ghost from = self.engine.downloads@.len() as int;
        let mut gids: Vec<String> = Vec::new();
        let mut events: Vec<DownloadEvent> = Vec::new();
        let mut i: usize = 0;
        assert(self.engine.downloads@.take(from) == self.engine.downloads@);
        while i < urls.len()
            invariant
                i <= urls.len(),
                self.wf(),
                from == old(self).engine.downloads@.len(),
                gids@.len() == i,
                self.holds_urls(from, urls@, i as int),
                self.engine.downloads@.take(from) == old(self).engine.downloads@,
                forall|j: int|
                    0 <= j < i ==> (#[trigger] gids@[j])@ == canonical_uuid_text(
                        self.engine.downloads@[from + j].status.id.value,
                    ),
                crate::engine::lawful(events@),
                i == 0 ==> self.engine.downloads@ == old(self).engine.downloads@,
            decreases urls.len() - i,
        {
            let ghost before = self.engine.downloads@;
            match self.engine.add_http(urls[i].as_str(), opts.clone()) {
                Ok((id, more)) => {
                    let mut more = more;
                    proof {
                        lemma_lawful_concat(events@, more@);
                        let after = self.engine.downloads@;
                        assert(after.drop_last() == before);
                        assert(after.len() == before.len() + 1);
                        assert(after.take(from) =~= before.take(from));
                        assert forall|j: int| 0 <= j < i implies (#[trigger] after[from + j])
                            == before[from + j] by {
                            assert(after.drop_last()[from + j] == after[from + j]);
                        }
                        assert(after[from + i] == after.last());
                    }
                    events.append(&mut more);
                    gids.push(id.to_text());
                },
                Err(e) => {
                    return UrlsAdded { gids, events, refused: Some(e) };
                },
            }
            i += 1;
        }
        UrlsAdded { gids, events, refused: None }
    }

    /// Adds a torrent from the bytes of its file, and returns its id with
    /// what the engine hands out.
    pub fn add_torrent(
        &mut self,
        data: &Vec<u8>,
        options: Option<FrontendOptions>,
    ) -> (r: Result<(String, TorrentAdded), EngineError>)
        requires
            old(self).wf(),
        ensures
            final(self).wf(),
            match r {
                Err(e) => {
                    &&& final(self).engine == old(self).engine
                    &&& match spec_torrent_refusal(data@) {
                        Some(refusal) => e@ == refusal,
                        None => e@ == EngineErrorView::Internal("duplicate download id"@) && old(
                            self,
                        ).engine.holds_random_id(),
                    }
                },
                Ok(added) => {
                    let status = final(self).engine.downloads@.last().status;
                    &&& spec_torrent_refusal(data@) is None
                    &&& is_random_uuid(added.1.id.value)
                    &&& describes(data@, added.1.metainfo)
                    &&& added.1.metainfo.wf()
                    &&& added.0@ == canonical_uuid_text(added.1.id.value)
                    &&& status.id == added.1.id
                    &&& final(self).engine.downloads@.drop_last() == old(self).engine.downloads@
                    &&& status.kind == DownloadKind::Torrent
                    &&& status.metadata@.name == added.1.metainfo.info.name@
                    &&& old(self).engine.emitted_ok(final(self).engine, status.id, added.1.events@)
                },
            },
            spec_torrent_refusal(data@) is None && !old(self).engine.holds_random_id() ==> r is Ok,
    {
        let opts = match options {
            Some(o) => convert_options(o),
            None => DownloadOptions::default(),
        };
        match self.engine.add_torrent(data, opts) {
            Ok(added) => Ok((added.id.to_text(), added)),
            Err(e) => Err(e),
        }
    }

    /// Adds a magnet link, and returns its id with what the engine hands
    /// out.
    pub fn add_magnet(
        &mut self,
        magnet_uri: &str,
        options: Option<FrontendOptions>,
    ) -> (r: Result<(String, MagnetAdded), EngineError>)
        requires
            old(self).wf(),
        ensures
            final(self).wf(),
            match r {
                Err(e) => {
                    &&& final(self).engine == old(self).engine
                    &&& match magnet_refusal(magnet_uri@) {
                        Some(refusal) => e@ == refusal,
                        None => e@ == EngineErrorView::Internal("duplicate download id"@) && old(
                            self,
                        ).engine.holds_random_id(),
                    }
                },
                Ok(added) => {
                    let status = final(self).engine.downloads@.last().status;
                    &&& magnet_refusal(magnet_uri@) is None
                    &&& spec_parse_magnet(magnet_uri@) == Some(added.1.magnet.parts())
                    &&& is_random_uuid(added.1.id.value)
                    &&& added.0@ == canonical_uuid_text(added.1.id.value)
                    &&& status.id == added.1.id
                    &&& final(self).engine.downloads@.drop_last() == old(self).engine.downloads@
                    &&& status.kind == DownloadKind::Magnet
                    &&& status.metadata@.magnet_uri == Some(magnet_uri@)
                    &&& old(self).engine.emitted_ok(final(self).engine, status.id, added.1.events@)
                },
            },
            magnet_refusal(magnet_uri@) is None && !old(self).engine.holds_random_id() ==> r is Ok,
    {
        let opts = match options {
            Some(o) => convert_options(o),
            None => DownloadOptions::default(),
        };
        match self.engine.add_magnet(magnet_uri, opts) {
            Ok(added) => Ok((added.id.to_text(), added)),
            Err(e) => Err(e),
        }
    }

    /// Pauses the download that `gid` names.
    pub fn pause(&mut self, gid: &str) -> (r: Result<Vec<DownloadEvent>, EngineError>)
        requires
            old(self).wf(),
        ensures
            final(self).wf(),
            r is Err ==> final(self).engine == old(self).engine,
            match parse_id_text(uuid_parse_of(gid@), gid@) {
                None => r matches Err(e) && e@ == EngineErrorView::NotFound(
                    "Invalid GID: "@ + gid@,
                ),
                Some(id) => {
                    &&& r is Ok <==> old(self).engine.contains(id) && old(self).engine.record(
                        id,
                    ).status.state.spec_tag() == StateTag::Downloading
                    &&& r matches Ok(events) ==> old(self).engine.emitted_ok(
                        final(self).engine,
                        id,
                        events@,
                    ) && final(self).engine.record(id).status.state.spec_tag()
                        == StateTag::Paused
                },
            },
    {
        let id = match parse_gid(gid) {
            Ok(id) => id,
            Err(e) => {
                return Err(e);
            },
        };
        let r = self.engine.pause(id);
        proof {
            if r is Ok {
                crate::engine::lemma_record_at(
                    self.engine.downloads@,
                    id,
                    crate::engine::index_of(old(self).engine.downloads@, id),
                );
            }
        }
        r
    }

    /// Resumes the download that `gid` names.
    pub fn resume(&mut self, gid: &str) -> (r: Result<Vec<DownloadEvent>, EngineError>)
        requires
            old(self).wf(),
        ensures
            final(self).wf(),
            r is Err ==> final(self).engine == old(self).engine,
            match parse_id_text(uuid_parse_of(gid@), gid@) {
                None => r matches Err(e) && e@ == EngineErrorView::NotFound(
                    "Invalid GID: "@ + gid@,
                ),
                Some(id) => {
                    &&& r is Ok <==> old(self).engine.contains(id) && old(self).engine.record(
                        id,
                    ).status.state.spec_tag() == StateTag::Paused
                    &&& r matches Ok(events) ==> old(self).engine.emitted_ok(
                        final(self).engine,
                        id,
                        events@,
                    ) && final(self).engine.record(id).status.state.spec_tag()
                        == StateTag::Connecting
                },
            },
    {
        let id = match parse_gid(gid) {
            Ok(id) => id,
            Err(e) => {
                return Err(e);
            },
        };
        let r = self.engine.resume(id);
        proof {
            if r is Ok {
                crate::engine::lemma_record_at(
                    self.engine.downloads@,
                    id,
                    crate::engine::index_of(old(self).engine.downloads@, id),
                );
            }
        }
        r
    }

    /// Removes the download that `gid` names.
    pub fn remove(&mut self, gid: &str, delete_files: bool) -> (r: Result<CancelPlan, EngineError>)
        requires
            old(self).wf(),
        ensures
            final(self).wf(),
            r is Err ==> final(self).engine == old(self).engine,
            match parse_id_text(uuid_parse_of(gid@), gid@) {
                None => r matches Err(e) && e@ == EngineErrorView::NotFound(
                    "Invalid GID: "@ + gid@,
                ),
                Some(id) => {
                    &&& r is Ok <==> old(self).engine.contains(id)
                    &&& !final(self).engine.contains(id)
                    &&& r matches Ok(plan) ==> plan.events@ == seq![DownloadEvent::Removed { id }]
                },
            },
    {
        let id = match parse_gid(gid) {
            Ok(id) => id,
            Err(e) => {
                return Err(e);
            },
        };
        self.engine.cancel(id, delete_files)
    }

    /// Pauses every download that is downloading.
    pub fn pause_all(&mut self) -> (events: Vec<DownloadEvent>)
        requires
            old(self).wf(),
        ensures
            final(self).wf(),
            crate::engine::lawful(events@),
            final(self).engine.downloads@.len() == old(self).engine.downloads@.len(),
            forall|i: int|
                0 <= i < final(self).engine.downloads@.len() ==> {
                    let was = old(self).engine.downloads@[i];
                    let now = #[trigger] final(self).engine.downloads@[i];
                    &&& now.status.id == was.status.id
                    &&& now.status.state.spec_tag() == if was.status.state.spec_tag()
                        == StateTag::Downloading {
                        StateTag::Paused
                    } else {
                        was.status.state.spec_tag()
                    }
                },
    {
        let mut events: Vec<DownloadEvent> = Vec::new();
        let n = self.engine.downloads.len();
        let mut i: usize = 0;
        while i < n
            invariant
                i <= n,
                self.wf(),
                n == self.engine.downloads@.len(),
                n == old(self).engine.downloads@.len(),
                crate::engine::lawful(events@),
                forall|k: int|
                    0 <= k < n ==> {
                        let was = old(self).engine.downloads@[k];
                        let now = #[trigger] self.engine.downloads@[k];
                        &&& now.status.id == was.status.id
                        &&& now.status.state.spec_tag() == if k < i && was.status.state.spec_tag()
                            == StateTag::Downloading {
                            StateTag::Paused
                        } else {
                            was.status.state.spec_tag()
                        }
                    },
            decreases n - i,
        {
            let id = self.engine.downloads[i].status.id;
            let ghost before = self.engine.downloads@;
            proof {
                crate::engine::lemma_record_at(before, id, i as int);
            }
            match self.engine.pause(id) {
                Ok(more) => {
                    let mut more = more;
                    proof {
                        lemma_lawful_concat(events@, more@);
                    }
                    events.append(&mut more);
                    assert forall|k: int| 0 <= k < n implies {
                        let was = old(self).engine.downloads@[k];
                        let now = #[trigger] self.engine.downloads@[k];
                        &&& now.status.id == was.status.id
                        &&& now.status.state.spec_tag() == if k < i + 1
                            && was.status.state.spec_tag() == StateTag::Downloading {
                            StateTag::Paused
                        } else {
                            was.status.state.spec_tag()
                        }
                    } by {
                        if k != i {
                            assert(self.engine.downloads@[k] == before[k]);
                        }
                    }
                },
                Err(_) => {},
            }
            i += 1;
        }
        events
    }

    /// Resumes every download that is paused.
    pub fn resume_all(&mut self) -> (events: Vec<DownloadEvent>)
        requires
            old(self).wf(),
        ensures
            final(self).wf(),
            crate::engine::lawful(events@),
            final(self).engine.downloads@.len() == old(self).engine.downloads@.len(),
            forall|i: int|
                0 <= i < final(self).engine.downloads@.len() ==> {
                    let was = old(self).engine.downloads@[i];
                    let now = #[trigger] final(self).engine.downloads@[i];
                    &&& now.status.id == was.status.id
                    &&& now.status.state.spec_tag() == if was.status.state.spec_tag()
                        == StateTag::Paused {
                        StateTag::Connecting
                    } else {
                        was.status.state.spec_tag()
                    }
                },
    {
        let mut events: Vec<DownloadEvent> = Vec::new();
        let n = self.engine.downloads.len();
        let mut i: usize = 0;
        while i < n
            invariant
                i <= n,
                self.wf(),
                n == self.engine.downloads@.len(),
                n == old(self).engine.downloads@.len(),
                crate::engine::lawful(events@),
                forall|k: int|
                    0 <= k < n ==> {
                        let was = old(self).engine.downloads@[k];
                        let now = #[trigger] self.engine.downloads@[k];
                        &&& now.status.id == was.status.id
                        &&& now.status.state.spec_tag() == if k < i && was.status.state.spec_tag()
                            == StateTag::Paused {
                            StateTag::Connecting
                        } else {
                            was.status.state.spec_tag()
                        }
                    },
            decreases n - i,
        {
            let id = self.engine.downloads[i].status.id;
            let ghost before = self.engine.downloads@;
            proof {
                crate::engine::lemma_record_at(before, id, i as int);
            }
            match self.engine.resume(id) {
                Ok(more) => {
                    let mut more = more;
                    proof {
                        lemma_lawful_concat(events@, more@);
                    }
                    events.append(&mut more);
                    assert forall|k: int| 0 <= k < n implies {
                        let was = old(self).engine.downloads@[k];
                        let now = #[trigger] self.engine.downloads@[k];
                        &&& now.status.id == was.status.id
                        &&& now.status.state.spec_tag() == if k < i + 1
                            && was.status.state.spec_tag() == StateTag::Paused {
                            StateTag::Connecting
                        } else {
                            was.status.state.spec_tag()
                        }
                    } by {
                        if k != i {
                            assert(self.engine.downloads@[k] == before[k]);
                        }
                    }
                },
                Err(_) => {},
            }
            i += 1;
        }
        events
    }

    /// The front end's record of the download that `gid` names.
    pub fn get_status(&self, gid: &str) -> (r: Option<Download>)
        requires
            self.wf(),
        ensures
            match parse_id_text(uuid_parse_of(gid@), gid@) {
                None => r is None,
                Some(id) => {
                    &&& r is Some <==> self.engine.contains(id)
                    &&& r matches Some(d) ==> renders(self.engine.record(id).status@, d)
                },
            },
    {
        let id = match parse_gid(gid) {
            Ok(id) => id,
            Err(_) => {
                return None;
            },
        };
        match self.engine.status(id) {
            Some(s) => Some(convert_status(s)),
            None => None,
        }
    }

    /// The front end's records of all downloads.
    pub fn get_all(&self) -> (r: Vec<Download>)
        ensures
            r@.len() == crate::engine::statuses_in(self.engine.downloads@, StatusGroup::All).len(),
            forall|i: int|
                0 <= i < r@.len() ==> renders(
                    crate::engine::statuses_in(self.engine.downloads@, StatusGroup::All)[i],
                    #[trigger] r@[i],
                ),
    {
        let statuses = self.engine.list();
        let ghost views = crate::engine::status_views(statuses@);
        let r = convert_all(statuses);
        assert forall|i: int| 0 <= i < r@.len() implies renders(views[i], #[trigger] r@[i]) by {}
        r
    }

    /// The front end's records of the active downloads.
    pub fn get_active(&self) -> (r: Vec<Download>)
        ensures
            r@.len() == crate::engine::statuses_in(
                self.engine.downloads@,
                StatusGroup::Active,
            ).len(),
            forall|i: int|
                0 <= i < r@.len() ==> renders(
                    crate::engine::statuses_in(self.engine.downloads@, StatusGroup::Active)[i],
                    #[trigger] r@[i],
                ),
    {
        let statuses = self.engine.active();
        let ghost views = crate::engine::status_views(statuses@);
        let r = convert_all(statuses);
        assert forall|i: int| 0 <= i < r@.len() implies renders(views[i], #[trigger] r@[i]) by {}
        r
    }

    /// The totals of the engine, every number as decimal text.
    pub fn get_global_stats(&self) -> (r: GlobalStat)
        ensures
            ({
                let stats = crate::engine::spec_global_stats(self.engine.downloads@);
                &&& r.download_speed@ == decimal(stats.download_speed as nat)
                &&& r.upload_speed@ == decimal(stats.upload_speed as nat)
                &&& r.num_active@ == decimal(stats.num_active as nat)
                &&& r.num_waiting@ == decimal(stats.num_waiting as nat)
                &&& r.num_stopped@ == decimal(stats.num_stopped as nat)
                &&& r.num_stopped_total@ == decimal(stats.num_stopped as nat)
            }),
    {
        let stats = self.engine.global_stats();
        GlobalStat {
            download_speed: decimal_string(stats.download_speed),
            upload_speed: decimal_string(stats.upload_speed),
            num_active: decimal_string(stats.num_active as u64),
            num_waiting: decimal_string(stats.num_waiting as u64),
            num_stopped: decimal_string(stats.num_stopped as u64),
            num_stopped_total: decimal_string(stats.num_stopped as u64),
        }
    }

    /// Sets the global speed limits; the rest of the configuration stays.
    pub fn set_speed_limit(
        &mut self,
        download_limit: Option<u64>,
        upload_limit: Option<u64>,
        dir: DirProbe,
    ) -> (r: Result<(), EngineError>)
        requires
            old(self).wf(),
        ensures
            final(self).wf(),
            r is Ok <==> dir.exists && dir.is_dir && old(self).engine.config.limits_ok(),
            r is Err ==> final(self).engine == old(self).engine,
            r is Ok ==> {
                &&& final(self).engine.config.global_download_limit == download_limit
                &&& final(self).engine.config.global_upload_limit == upload_limit
                &&& final(self).engine.config.download_dir == old(self).engine.config.download_dir
                &&& final(self).engine.config.max_concurrent_downloads == old(self).engine.config.max_concurrent_downloads
                &&& final(self).engine.downloads == old(self).engine.downloads
                &&& final(self).engine.permits_in_use == old(self).engine.permits_in_use
            },
    {
        let mut config = self.engine.get_full_config();
        config.global_download_limit = download_limit;
        config.global_upload_limit = upload_limit;
        self.engine.set_config(config, dir)
    }

    /// The files of the torrent that `gid` names, if it names a torrent
    /// whose files are known.
    pub fn get_torrent_files(&self, gid: &str) -> (r: Option<Vec<TorrentFileInfo>>)
        requires
            self.wf(),
        ensures
            match parse_id_text(uuid_parse_of(gid@), gid@) {
                None => r is None,
                Some(id) => if self.engine.contains(id) {
                    match (r, self.engine.record(id).status@.files) {
                        (Some(list), Some(files)) => list@ == files.map_values(
                            |f: TorrentFile| file_info_of(f),
                        ),
                        (None, None) => true,
                        _ => false,
                    }
                } else {
                    r is None
                },
            },
    {
        let id = match parse_gid(gid) {
            Ok(id) => id,
            Err(_) => {
                return None;
            },
        };
        let status = match self.engine.status(id) {
            Some(s) => s,
            None => {
                return None;
            },
        };
        match status.torrent_info {
            Some(info) => {
                let mut out: Vec<TorrentFileInfo> = Vec::new();
                let mut i: usize = 0;
                while i < info.files.len()
                    invariant
                        i <= info.files.len(),
                        out@ == info.files@.take(i as int).map_values(
                            |f: TorrentFile| file_info_of(f),
                        ),
                    decreases info.files.len() - i,
                {
                    let f = &info.files[i];
                    out.push(
                        TorrentFileInfo {
                            path: f.path.clone(),
                            size: f.size,
                            completed: f.completed,
                            selected: f.selected,
                        },
                    );
                    assert(out@ =~= info.files@.take(i + 1).map_values(
                        |f: TorrentFile| file_info_of(f),
                    ));
                    i += 1;
                }
                assert(info.files@.take(info.files.len() as int) == info.files@);
                Some(out)
            },
            None => None,
        }
    }

    /// The peers of the torrent that `gid` names, if it names a torrent
    /// whose peers are known.
    pub fn get_peers(&self, gid: &str) -> (r: Option<Vec<PeerInfo>>)
        requires
            self.wf(),
        ensures
            match parse_id_text(uuid_parse_of(gid@), gid@) {
                None => r is None,
                Some(id) => if self.engine.contains(id) {
                    match (r, self.engine.record(id).status@.peers) {
                        (Some(list), Some(peers)) => list@ == peers.map_values(
                            |p: EnginePeerInfo| peer_info_of(p),
                        ),
                        (None, None) => true,
                        _ => false,
                    }
                } else {
                    r is None
                },
            },
    {
        let id = match parse_gid(gid) {
            Ok(id) => id,
            Err(_) => {
                return None;
            },
        };
        let status = match self.engine.status(id) {
            Some(s) => s,
            None => {
                return None;
            },
        };
        match status.peers {
            Some(peers) => {
                let mut out: Vec<PeerInfo> = Vec::new();
                let mut i: usize = 0;
                while i < peers.len()
                    invariant
                        i <= peers.len(),
                        out@ == peers@.take(i as int).map_values(
                            |p: EnginePeerInfo| peer_info_of(p),
                        ),
                    decreases peers.len() - i,
                {
                    let p = &peers[i];
                    out.push(
                        PeerInfo {
                            ip: p.ip.clone(),
                            port: p.port,
                            client: clone_opt(&p.client),
                            download_speed: p.download_speed,
                            upload_speed: p.upload_speed,
                        },
                    );
                    assert(out@ =~= peers@.take(i + 1).map_values(
                        |p: EnginePeerInfo| peer_info_of(p),
                    ));
                    i += 1;
                }
                assert(peers@.take(peers.len() as int) == peers@);
                Some(out)
            },
            None => None,
        }
    }
}

} // verus!
