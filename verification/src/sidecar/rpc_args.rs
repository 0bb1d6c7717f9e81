//! What the handlers of the RPC channel read of the parameters of a
//! request: which keys, with which defaults, and what is refused before
//! anything is done.

use crate::engine::url_host_of;
use crate::sidecar::error::{Error, ErrorView};
use crate::sidecar::rpc_server::{url_refusal, validate_download_url, RpcMethod};
use crate::text::{lowercase_of, owned, str_eq};
use crate::types::{clone_strings, strings_view};
use vstd::prelude::*;
use vstd::string::StringSliceAdditionalSpecFns;

verus! {

/// A value among the parameters of a request, as far as the handlers read
/// it.
#[derive(Debug)]
pub enum ParamValue {
    Text(String),
    Flag(bool),
    /// A number that is not negative and has no fraction.
    Number(u64),
    /// A list of texts.
    Texts(Vec<String>),
    /// Anything else.
    Other,
}

/// One of the parameters of a request.
#[derive(Debug)]
pub struct Param {
    pub key: String,
    pub value: ParamValue,
}

/// What a handler works on.
#[derive(Debug)]
pub enum RpcArgs {
    /// The method takes no parameters, or parameters that are read as a
    /// whole record.
    Nothing,
    Gid { gid: String },
    Url { url: String },
    Urls { urls: Vec<String> },
    Removal { gid: String, delete_files: bool },
    Limits { download_limit: Option<u64>, upload_limit: Option<u64> },
    FilePath { file_path: String },
    Magnet { magnet_uri: String },
    Flag { value: bool },
    UserAgent { user_agent: String },
    Priority { gid: String, priority: String },
}

pub enum RpcArgsView {
    Nothing,
    Gid { gid: Seq<char> },
    Url { url: Seq<char> },
    Urls { urls: Seq<Seq<char>> },
    Removal { gid: Seq<char>, delete_files: bool },
    Limits { download_limit: Option<u64>, upload_limit: Option<u64> },
    FilePath { file_path: Seq<char> },
    Magnet { magnet_uri: Seq<char> },
    Flag { value: bool },
    UserAgent { user_agent: Seq<char> },
    Priority { gid: Seq<char>, priority: Seq<char> },
}

impl View for RpcArgs {
    type V = RpcArgsView;

    open spec fn view(&self) -> RpcArgsView {
        match self {
            RpcArgs::Nothing => RpcArgsView::Nothing,
            RpcArgs::Gid { gid } => RpcArgsView::Gid { gid: gid@ },
            RpcArgs::Url { url } => RpcArgsView::Url { url: url@ },
            RpcArgs::Urls { urls } => RpcArgsView::Urls { urls: strings_view(urls@) },
            RpcArgs::Removal { gid, delete_files } => RpcArgsView::Removal {
                gid: gid@,
                delete_files: *delete_files,
            },
            RpcArgs::Limits { download_limit, upload_limit } => RpcArgsView::Limits {
                download_limit: *download_limit,
                upload_limit: *upload_limit,
            },
            RpcArgs::FilePath { file_path } => RpcArgsView::FilePath { file_path: file_path@ },
            RpcArgs::Magnet { magnet_uri } => RpcArgsView::Magnet { magnet_uri: magnet_uri@ },
            RpcArgs::Flag { value } => RpcArgsView::Flag { value: *value },
            RpcArgs::UserAgent { user_agent } => RpcArgsView::UserAgent {
                user_agent: user_agent@,
            },
            RpcArgs::Priority { gid, priority } => RpcArgsView::Priority {
                gid: gid@,
                priority: priority@,
            },
        }
    }
}

// ---------------------------------------------------------------------------
// Looking parameters up
// ---------------------------------------------------------------------------

/// The index of the first parameter with the key `key`.
pub open spec fn index_of_key(params: Seq<Param>, key: Seq<char>) -> Option<int>
    decreases params.len(),
{
    if params.len() == 0 {
        None
    } else {
        match index_of_key(params.drop_last(), key) {
            Some(i) => Some(i),
            None => if params.last().key@ == key {
                Some(params.len() - 1)
            } else {
                None
            },
        }
    }
}

/// The index of the parameter that is read for a key with two spellings:
/// the first spelling where it is present, else the second.
pub open spec fn index_of_either(params: Seq<Param>, first: Seq<char>, second: Seq<char>)
    -> Option<int> {
    match index_of_key(params, first) {
        Some(i) => Some(i),
        None => index_of_key(params, second),
    }
}

/// The text of the parameter at `at`; empty without a parameter, or for
/// one that is no text.
pub open spec fn text_at(params: Seq<Param>, at: Option<int>) -> Seq<char> {
    match at {
        Some(i) => match params[i].value {
            ParamValue::Text(t) => t@,
            _ => Seq::empty(),
        },
        None => Seq::empty(),
    }
}

/// The flag at `at`, `default` without one.
pub open spec fn flag_at(params: Seq<Param>, at: Option<int>, default: bool) -> bool {
    match at {
        Some(i) => match params[i].value {
            ParamValue::Flag(b) => b,
            _ => default,
        },
        None => default,
    }
}

/// The number at `at`, if there is one.
pub open spec fn number_at(params: Seq<Param>, at: Option<int>) -> Option<u64> {
    match at {
        Some(i) => match params[i].value {
            ParamValue::Number(n) => Some(n),
            _ => None,
        },
        None => None,
    }
}

/// The texts at `at`, none without a list of texts.
pub open spec fn texts_at(params: Seq<Param>, at: Option<int>) -> Seq<Seq<char>> {
    match at {
        Some(i) => match params[i].value {
            ParamValue::Texts(v) => strings_view(v@),
            _ => Seq::empty(),
        },
        None => Seq::empty(),
    }
}

fn find_key(params: &Vec<Param>, key: &str) -> (r: Option<usize>)
    ensures
        match r {
            Some(i) => index_of_key(params@, key@) == Some(i as int) && i < params.len(),
            None => index_of_key(params@, key@) is None,
        },
{
    let mut i: usize = 0;
    assert(params@.take(0) =~= Seq::empty());
    while i < params.len()
        invariant
            i <= params.len(),
            index_of_key(params@.take(i as int), key@) is None,
        decreases params.len() - i,
    {
        proof {
            assert(params@.take(i + 1).drop_last() == params@.take(i as int));
            assert(params@.take(i + 1).last() == params@[i as int]);
        }
        if str_eq(params[i].key.as_str(), key) {
            proof {
                lemma_found_stays(params@, key@, i + 1);
            }
            return Some(i);
        }
        i += 1;
    }
    assert(params@.take(params.len() as int) == params@);
    None
}

/// A key that is found among the first parameters is found at the same
/// place among all.
pub proof fn lemma_found_stays(params: Seq<Param>, key: Seq<char>, k: int)
    requires
        0 <= k <= params.len(),
        index_of_key(params.take(k), key) is Some,
    ensures
        index_of_key(params, key) == index_of_key(params.take(k), key),
    decreases params.len() - k,
{
    if k == params.len() {
        assert(params.take(k) == params);
    } else {
        assert(params.take(k + 1).drop_last() == params.take(k));
        lemma_found_stays(params, key, k + 1);
    }
}

fn find_either(params: &Vec<Param>, first: &str, second: &str) -> (r: Option<usize>)
    ensures
        match r {
            Some(i) => index_of_either(params@, first@, second@) == Some(i as int) && i
                < params.len(),
            None => index_of_either(params@, first@, second@) is None,
        },
{
    match find_key(params, first) {
        Some(i) => Some(i),
        None => find_key(params, second),
    }
}

fn read_text(params: &Vec<Param>, at: Option<usize>) -> (r: String)
    requires
        at matches Some(i) ==> i < params.len(),
    ensures
        r@ == text_at(
            params@,
            match at {
                Some(i) => Some(i as int),
                None => None,
            },
        ),
{
    match at {
        Some(i) => match &params[i].value {
            ParamValue::Text(t) => t.clone(),
            _ => String::new(),
        },
        None => String::new(),
    }
}

fn read_flag(params: &Vec<Param>, at: Option<usize>, default: bool) -> (r: bool)
    requires
        at matches Some(i) ==> i < params.len(),
    ensures
        r == flag_at(
            params@,
            match at {
                Some(i) => Some(i as int),
                None => None,
            },
            default,
        ),
{
    match at {
        Some(i) => match &params[i].value {
            ParamValue::Flag(b) => *b,
            _ => default,
        },
        None => default,
    }
}

fn read_number(params: &Vec<Param>, at: Option<usize>) -> (r: Option<u64>)
    requires
        at matches Some(i) ==> i < params.len(),
    ensures
        r == number_at(
            params@,
            match at {
                Some(i) => Some(i as int),
                None => None,
            },
        ),
{
    match at {
        Some(i) => match &params[i].value {
            ParamValue::Number(n) => Some(*n),
            _ => None,
        },
        None => None,
    }
}

fn read_texts(params: &Vec<Param>, at: Option<usize>) -> (r: Vec<String>)
    requires
        at matches Some(i) ==> i < params.len(),
    ensures
        strings_view(r@) == texts_at(
            params@,
            match at {
                Some(i) => Some(i as int),
                None => None,
            },
        ),
{
    let none: Vec<String> = Vec::new();
    assert(strings_view(none@) =~= Seq::empty());
    match at {
        Some(i) => match &params[i].value {
            ParamValue::Texts(v) => clone_strings(v),
            _ => none,
        },
        None => none,
    }
}

// ---------------------------------------------------------------------------
// What each method reads
// ---------------------------------------------------------------------------

/// Why a URL is refused, if it is.
pub open spec fn spec_url_refused(url: Seq<char>) -> Option<Seq<char>> {
    url_refusal(
        url,
        vstd::utf8::encode_utf8(url).len() as usize,
        lowercase_of(url),
        url_host_of(url),
    )
}

/// Why the first of the URLs that is refused is refused, if one is.
pub open spec fn first_refused(urls: Seq<Seq<char>>) -> Option<Seq<char>>
    decreases urls.len(),
{
    if urls.len() == 0 {
        None
    } else {
        match first_refused(urls.drop_last()) {
            Some(why) => Some(why),
            None => spec_url_refused(urls.last()),
        }
    }
}

/// Where one of the first URLs is refused, that refusal is the one of the
/// whole list.
pub proof fn lemma_refused_stays(urls: Seq<Seq<char>>, k: int)
    requires
        0 <= k <= urls.len(),
        first_refused(urls.take(k)) is Some,
    ensures
        first_refused(urls) == first_refused(urls.take(k)),
    decreases urls.len() - k,
{
    if k == urls.len() {
        assert(urls.take(k) == urls);
    } else {
        assert(urls.take(k + 1).drop_last() == urls.take(k));
        lemma_refused_stays(urls, k + 1);
    }
}

/// What the handler of `method` works on, or why the request is refused
/// before anything is done: a download URL must be a magnet link or an
/// HTTP or HTTPS URL that targets no private address.
pub open spec fn spec_read_args(method: RpcMethod, params: Seq<Param>) -> Result<
    RpcArgsView,
    Seq<char>,
> {
    let gid = text_at(params, index_of_key(params, "gid"@));
    let file_path = text_at(params, index_of_either(params, "filePath"@, "file_path"@));
    let magnet_uri = text_at(params, index_of_either(params, "magnetUri"@, "magnet_uri"@));
    match method {
        RpcMethod::AddDownload => {
            let url = text_at(params, index_of_key(params, "url"@));
            match spec_url_refused(url) {
                Some(why) => Err(why),
                None => Ok(RpcArgsView::Url { url }),
            }
        },
        RpcMethod::AddUrls => {
            let urls = texts_at(params, index_of_key(params, "urls"@));
            match first_refused(urls) {
                Some(why) => Err(why),
                None => Ok(RpcArgsView::Urls { urls }),
            }
        },
        RpcMethod::PauseDownload => Ok(RpcArgsView::Gid { gid }),
        RpcMethod::ResumeDownload => Ok(RpcArgsView::Gid { gid }),
        RpcMethod::GetDownloadStatus => Ok(RpcArgsView::Gid { gid }),
        RpcMethod::GetTorrentFiles => Ok(RpcArgsView::Gid { gid }),
        RpcMethod::SelectTorrentFiles => Ok(RpcArgsView::Gid { gid }),
        RpcMethod::GetPeers => Ok(RpcArgsView::Gid { gid }),
        RpcMethod::DbRemoveDownload => Ok(RpcArgsView::Gid { gid }),
        RpcMethod::RemoveDownload => Ok(
            RpcArgsView::Removal {
                gid,
                delete_files: flag_at(
                    params,
                    index_of_either(params, "deleteFiles"@, "delete_files"@),
                    false,
                ),
            },
        ),
        RpcMethod::SetSpeedLimit => Ok(
            RpcArgsView::Limits {
                download_limit: number_at(
                    params,
                    index_of_either(params, "downloadLimit"@, "download_limit"@),
                ),
                upload_limit: number_at(
                    params,
                    index_of_either(params, "uploadLimit"@, "upload_limit"@),
                ),
            },
        ),
        RpcMethod::AddTorrentFile => Ok(RpcArgsView::FilePath { file_path }),
        RpcMethod::ParseTorrentFile => Ok(RpcArgsView::FilePath { file_path }),
        RpcMethod::OpenFileLocation => Ok(RpcArgsView::FilePath { file_path }),
        RpcMethod::OpenDownloadFolder => Ok(
            RpcArgsView::FilePath { file_path: text_at(params, index_of_key(params, "path"@)) },
        ),
        RpcMethod::AddMagnet => Ok(RpcArgsView::Magnet { magnet_uri }),
        RpcMethod::ParseMagnetUri => Ok(RpcArgsView::Magnet { magnet_uri }),
        RpcMethod::SetCloseToTray => Ok(
            RpcArgsView::Flag { value: flag_at(params, index_of_key(params, "value"@), true) },
        ),
        RpcMethod::SetUserAgent => Ok(
            RpcArgsView::UserAgent {
                user_agent: text_at(params, index_of_either(params, "userAgent"@, "user_agent"@)),
            },
        ),
        RpcMethod::SetPriority => Ok(
            RpcArgsView::Priority {
                gid,
                priority: match index_of_key(params, "priority"@) {
                    Some(i) => match params[i].value {
                        ParamValue::Text(t) => t@,
                        _ => "normal"@,
                    },
                    None => "normal"@,
                },
            },
        ),
        _ => Ok(RpcArgsView::Nothing),
    }
}

fn check_urls(urls: &Vec<String>) -> (r: Result<(), Error>)
    ensures
        match r {
            Ok(_) => first_refused(strings_view(urls@)) is None,
            Err(e) => first_refused(strings_view(urls@)) == Some(e@->InvalidInput_0) && e@
                is InvalidInput,
        },
{
    let ghost all = strings_view(urls@);
    let mut i: usize = 0;
    assert(all.take(0) =~= Seq::empty());
    while i < urls.len()
        invariant
            i <= urls.len(),
            all == strings_view(urls@),
            first_refused(all.take(i as int)) is None,
        decreases urls.len() - i,
    {
        proof {
            assert(all.take(i + 1).drop_last() == all.take(i as int));
            assert(all.take(i + 1).last() == urls@[i as int]@);
        }
        match validate_download_url(urls[i].as_str()) {
            Ok(_) => {},
            Err(e) => {
                proof {
                    lemma_refused_stays(all, i + 1);
                }
                return Err(e);
            },
        }
        i += 1;
    }
    assert(all.take(urls.len() as int) == all);
    Ok(())
}

/// What the handler of `method` works on, or why the request is refused
/// before anything is done.
pub fn read_args(method: RpcMethod, params: &Vec<Param>) -> (r: Result<RpcArgs, Error>)
    ensures
        match r {
            Ok(args) => spec_read_args(method, params@) == Ok::<RpcArgsView, Seq<char>>(args@),
            Err(e) => spec_read_args(method, params@) == Err::<RpcArgsView, Seq<char>>(
                e@->InvalidInput_0,
            ) && e@ is InvalidInput,
        },
{
    match method {
        RpcMethod::AddDownload => {
            let url = read_text(params, find_key(params, "url"));
            match validate_download_url(url.as_str()) {
                Ok(_) => Ok(RpcArgs::Url { url }),
                Err(e) => Err(e),
            }
        },
        RpcMethod::AddUrls => {
            let urls = read_texts(params, find_key(params, "urls"));
            match check_urls(&urls) {
                Ok(_) => Ok(RpcArgs::Urls { urls }),
                Err(e) => Err(e),
            }
        },
        RpcMethod::PauseDownload
        | RpcMethod::ResumeDownload
        | RpcMethod::GetDownloadStatus
        | RpcMethod::GetTorrentFiles
        | RpcMethod::SelectTorrentFiles
        | RpcMethod::GetPeers
        | RpcMethod::DbRemoveDownload => Ok(
            RpcArgs::Gid { gid: read_text(params, find_key(params, "gid")) },
        ),
        RpcMethod::RemoveDownload => Ok(
            RpcArgs::Removal {
                gid: read_text(params, find_key(params, "gid")),
                delete_files: read_flag(
                    params,
                    find_either(params, "deleteFiles", "delete_files"),
                    false,
                ),
            },
        ),
        RpcMethod::SetSpeedLimit => Ok(
            RpcArgs::Limits {
                download_limit: read_number(
                    params,
                    find_either(params, "downloadLimit", "download_limit"),
                ),
                upload_limit: read_number(
                    params,
                    find_either(params, "uploadLimit", "upload_limit"),
                ),
            },
        ),
        RpcMethod::AddTorrentFile | RpcMethod::ParseTorrentFile | RpcMethod::OpenFileLocation => Ok(
            RpcArgs::FilePath {
                file_path: read_text(params, find_either(params, "filePath", "file_path")),
            },
        ),
        RpcMethod::OpenDownloadFolder => Ok(
            RpcArgs::FilePath { file_path: read_text(params, find_key(params, "path")) },
        ),
        RpcMethod::AddMagnet | RpcMethod::ParseMagnetUri => Ok(
            RpcArgs::Magnet {
                magnet_uri: read_text(params, find_either(params, "magnetUri", "magnet_uri")),
            },
        ),
        RpcMethod::SetCloseToTray => Ok(
            RpcArgs::Flag { value: read_flag(params, find_key(params, "value"), true) },
        ),
        RpcMethod::SetUserAgent => Ok(
            RpcArgs::UserAgent {
                user_agent: read_text(params, find_either(params, "userAgent", "user_agent")),
            },
        ),
        RpcMethod::SetPriority => {
            let gid = read_text(params, find_key(params, "gid"));
            let priority = match find_key(params, "priority") {
                Some(i) => match &params[i].value {
                    ParamValue::Text(t) => t.clone(),
                    _ => owned("normal"),
                },
                None => owned("normal"),
            };
            Ok(RpcArgs::Priority { gid, priority })
        },
        _ => Ok(RpcArgs::Nothing),
    }
}

} // verus!
