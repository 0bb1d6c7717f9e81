//! What the answer to a `HEAD` request says of a server: size, range
//! support, validators and the suggested file name.

use crate::error::{EngineError, EngineErrorView, NetworkErrorKind};
use crate::text::{
    chars_of, contains, contains_seq, decimal, find, first_at, join2, join3, lemma_find_is,
    lemma_find_none, occurs_at, parse_u64, slice, spec_find, spec_parse_u64, string_of, trim,
    trimmed,
};
use crate::sidecar::engine_adapter::{sanitize_filename, spec_sanitize};
use crate::types::{clone_opt, opt_view};
use vstd::prelude::*;

verus! {

/// What `urlencoding::decode` makes of a text: every `%XX` replaced by the
/// byte it names and the bytes read as UTF-8, or nothing where they are not
/// UTF-8.
pub uninterp spec fn percent_decoded(text: Seq<char>) -> Option<Seq<char>>;

/// What `urlencoding::encode` makes of a text: every byte of its UTF-8 form
/// but the unreserved ones written as `%XX`.
pub uninterp spec fn percent_encoded(text: Seq<char>) -> Seq<char>;

/// The characters that percent-encoding leaves as they are: ASCII letters
/// and digits, `-`, `.`, `_` and `~`.
pub open spec fn is_unreserved(c: char) -> bool {
    let u = c as u32;
    ||| 0x30 <= u <= 0x39
    ||| 0x41 <= u <= 0x5A
    ||| 0x61 <= u <= 0x7A
    ||| c == '-'
    ||| c == '.'
    ||| c == '_'
    ||| c == '~'
}

/// `urlencoding::decode`: the percent-decoded text, if its bytes are UTF-8.
#[verifier::external_body]
pub(crate) fn percent_decode(text: &str) -> (r: Option<String>)
    ensures
        opt_view(r) == percent_decoded(text@),
{
    urlencoding::decode(text).ok().map(|c| c.into_owned())
}

/// `urlencoding::encode`: the percent-encoded text. It holds unreserved
/// characters and `%` only, and `decode` gives the text back.
#[verifier::external_body]
fn percent_encode(text: &str) -> (r: String)
    ensures
        r@ == percent_encoded(text@),
        percent_decoded(r@) == Some(text@),
        forall|i: int| 0 <= i < r@.len() ==> is_unreserved(#[trigger] r@[i]) || r@[i] == '%',
{
    urlencoding::encode(text).into_owned()
}

/// Server capabilities found by the probe.
#[derive(Debug)]
pub struct ServerCapabilities {
    /// Content-Length header value.
    pub content_length: Option<u64>,
    /// Whether the server answers range requests.
    pub supports_range: bool,
    /// ETag header for validation.
    pub etag: Option<String>,
    /// Last-Modified header for validation.
    pub last_modified: Option<String>,
    /// Suggested filename from Content-Disposition.
    pub suggested_filename: Option<String>,
}

/// The header values of the answer that the probe reads; a header that is
/// missing or is no text is `None`.
#[derive(Debug)]
pub struct ProbeHeaders {
    pub content_length: Option<String>,
    pub accept_ranges: Option<String>,
    pub etag: Option<String>,
    pub last_modified: Option<String>,
    pub content_disposition: Option<String>,
}

/// The file name that a `Content-Disposition` value carries, before any
/// decoding.
#[derive(Debug)]
pub enum DispositionName {
    /// No file name, or a quoted one that never closes.
    Absent,
    /// The name as it is: from `filename="…"` or `filename=…`.
    Plain(String),
    /// A percent-encoded name: from `filename*=charset''…`.
    Encoded(String),
}

pub enum DispositionNameView {
    Absent,
    Plain(Seq<char>),
    Encoded(Seq<char>),
}

impl View for DispositionName {
    type V = DispositionNameView;

    open spec fn view(&self) -> DispositionNameView {
        match self {
            DispositionName::Absent => DispositionNameView::Absent,
            DispositionName::Plain(s) => DispositionNameView::Plain(s@),
            DispositionName::Encoded(s) => DispositionNameView::Encoded(s@),
        }
    }
}

/// The text up to the first `;`, or all of it.
pub open spec fn until_semicolon(rest: Seq<char>) -> Seq<char> {
    match spec_find(rest, seq![';']) {
        Some(e) => rest.take(e),
        None => rest,
    }
}

/// The file name part of a `Content-Disposition` value. `filename=` is
/// looked for first: a value in double quotes runs to the closing quote,
/// any other to the next `;`, trimmed. Else `filename*=` is looked for: its
/// value follows the first `''` and runs to the next `;`.
pub open spec fn spec_disposition_name(h: Seq<char>) -> DispositionNameView {
    match spec_find(h, "filename="@) {
        Some(start) => {
            let rest = h.skip(start + "filename="@.len());
            if rest.len() > 0 && rest[0] == '"' {
                let inner = rest.skip(1);
                match spec_find(inner, seq!['"']) {
                    Some(end) => DispositionNameView::Plain(inner.take(end)),
                    None => DispositionNameView::Absent,
                }
            } else {
                DispositionNameView::Plain(trimmed(until_semicolon(rest)))
            }
        },
        None => match spec_find(h, "filename*="@) {
            Some(start) => {
                let rest = h.skip(start + "filename*="@.len());
                match spec_find(rest, "''"@) {
                    Some(q) => DispositionNameView::Encoded(
                        until_semicolon(rest.skip(q + "''"@.len())),
                    ),
                    None => DispositionNameView::Absent,
                }
            },
            None => DispositionNameView::Absent,
        },
    }
}

/// The file name that a `Content-Disposition` value suggests, given what
/// percent-decoding makes of an encoded name.
pub open spec fn spec_content_disposition(h: Seq<char>) -> Option<Seq<char>> {
    match spec_disposition_name(h) {
        DispositionNameView::Absent => None,
        DispositionNameView::Plain(name) => Some(name),
        DispositionNameView::Encoded(enc) => percent_decoded(enc),
    }
}

fn take_until_semicolon(rest: &Vec<char>) -> (r: Vec<char>)
    ensures
        r@ == until_semicolon(rest@),
{
    let semi: Vec<char> = vec![';'];
    assert(semi@ == seq![';']);
    match find(rest, &semi) {
        Some(e) => {
            assert(rest@.take(e as int) == rest@.subrange(0, e as int));
            slice(rest, 0, e)
        },
        None => {
            assert(rest@.subrange(0, rest.len() as int) == rest@);
            slice(rest, 0, rest.len())
        },
    }
}

/// The file name part of a `Content-Disposition` value.
pub fn disposition_name(header: &str) -> (r: DispositionName)
    ensures
        r@ == spec_disposition_name(header@),
{
    let h = chars_of(header);
    let plain_key = chars_of("filename=");
    let n = h.len();
    match find(&h, &plain_key) {
        Some(start) => {
            let rest = slice(&h, start + plain_key.len(), n);
            assert(rest@ == h@.skip(start + plain_key.len()));
            if rest.len() > 0 && rest[0] == '"' {
                let inner = slice(&rest, 1, rest.len());
                assert(inner@ == rest@.skip(1));
                let quote: Vec<char> = vec!['"'];
                assert(quote@ == seq!['"']);
                match find(&inner, &quote) {
                    Some(end) => {
                        assert(inner@.take(end as int) == inner@.subrange(0, end as int));
                        let name = slice(&inner, 0, end);
                        DispositionName::Plain(string_of(&name))
                    },
                    None => DispositionName::Absent,
                }
            } else {
                let value = take_until_semicolon(&rest);
                let name = trim(&value);
                DispositionName::Plain(string_of(&name))
            }
        },
        None => {
            let ext_key = chars_of("filename*=");
            match find(&h, &ext_key) {
                Some(start) => {
                    let rest = slice(&h, start + ext_key.len(), n);
                    assert(rest@ == h@.skip(start + ext_key.len()));
                    let marker = chars_of("''");
                    match find(&rest, &marker) {
                        Some(q) => {
                            let encoded = slice(&rest, q + marker.len(), rest.len());
                            assert(encoded@ == rest@.skip(q + marker.len()));
                            let value = take_until_semicolon(&encoded);
                            DispositionName::Encoded(string_of(&value))
                        },
                        None => DispositionName::Absent,
                    }
                },
                None => DispositionName::Absent,
            }
        },
    }
}

/// The file name that a `Content-Disposition` value suggests: a plain name
/// as it is, an encoded one percent-decoded.
pub fn parse_content_disposition(header: &str) -> (r: Option<String>)
    ensures
        opt_view(r) == spec_content_disposition(header@),
{
    match disposition_name(header) {
        DispositionName::Absent => None,
        DispositionName::Plain(name) => Some(name),
        DispositionName::Encoded(enc) => percent_decode(enc.as_str()),
    }
}

/// A header value that suggests `name` in the quoted form.
pub open spec fn quoted_disposition(name: Seq<char>) -> Seq<char> {
    "attachment; filename=\""@ + name + seq!['"']
}

/// A header value that suggests `name` in the extended form of RFC 5987.
pub open spec fn extended_disposition(name: Seq<char>) -> Seq<char> {
    "attachment; filename*=UTF-8''"@ + percent_encoded(name)
}

/// A header value that suggests `name` in the quoted form.
pub fn render_quoted_disposition(name: &str) -> (r: String)
    ensures
        r@ == quoted_disposition(name@),
        !name@.contains('"') ==> spec_content_disposition(r@) == Some(name@),
{
    proof {
        if !name@.contains('"') {
            lemma_quoted_round_trip(name@);
        }
        reveal_strlit("\"");
        assert("\""@ == seq!['"']);
    }
    join3("attachment; filename=\"", name, "\"")
}

/// A header value that suggests `name` in the extended form of RFC 5987;
/// parsing it gives `name` back.
pub fn render_extended_disposition(name: &str) -> (r: String)
    ensures
        r@ == extended_disposition(name@),
        spec_content_disposition(r@) == Some(name@),
{
    let enc = percent_encode(name);
    proof {
        lemma_extended_round_trip(name@, enc@);
    }
    join2("attachment; filename*=UTF-8''", enc.as_str())
}

/// Parsing the quoted form of a name without double quotes gives the name
/// back.
pub proof fn lemma_quoted_round_trip(name: Seq<char>)
    requires
        !name.contains('"'),
    ensures
        spec_content_disposition(quoted_disposition(name)) == Some(name),
{
    reveal_strlit("attachment; filename=\"");
    reveal_strlit("filename=");
    let key = "filename="@;
    let quote = seq!['"'];
    let h = quoted_disposition(name);
    assert(h.subrange(12, 12int + key.len()) == key);
    assert forall|j: int| 0 <= j < 12 implies !occurs_at(h, key, j) by {
        if occurs_at(h, key, j) {
            assert(h.subrange(j, j + key.len())[0] == key[0]);
        }
    }
    lemma_find_is(h, key, 0, 12);
    let rest = h.skip(12int + key.len());
    assert(rest == quote + name + quote);
    let inner = rest.skip(1);
    assert(inner == name + quote);
    let end = name.len() as int;
    assert(inner.subrange(end, end + quote.len()) == quote);
    assert forall|j: int| 0 <= j < end implies !occurs_at(inner, quote, j) by {
        if occurs_at(inner, quote, j) {
            assert(inner.subrange(j, j + quote.len())[0] == quote[0]);
            assert(name[j] == '"');
        }
    }
    lemma_find_is(inner, quote, 0, end);
    assert(inner.take(end) == name);
}

/// Parsing the extended form gives back what percent-decoding makes of
/// its encoded part, for every encoded part made of unreserved characters
/// and `%`.
pub proof fn lemma_extended_round_trip(name: Seq<char>, enc: Seq<char>)
    requires
        forall|i: int| 0 <= i < enc.len() ==> is_unreserved(#[trigger] enc[i]) || enc[i] == '%',
        percent_decoded(enc) == Some(name),
    ensures
        spec_content_disposition("attachment; filename*=UTF-8''"@ + enc) == Some(name),
{
    reveal_strlit("attachment; filename*=UTF-8''");
    reveal_strlit("filename=");
    reveal_strlit("filename*=");
    reveal_strlit("''");
    let prefix = "attachment; filename*=UTF-8''"@;
    let key = "filename="@;
    let ext = "filename*="@;
    let marker = "''"@;
    let semi = seq![';'];
    let h = prefix + enc;
    assert forall|j: int| 0 <= j implies !occurs_at(h, key, j) by {
        if occurs_at(h, key, j) {
            let sub = h.subrange(j, j + key.len());
            assert(sub[8] == key[8]);
            assert(sub[0] == key[0]);
            if j + 8 >= prefix.len() {
                assert(is_unreserved(enc[j + 8 - prefix.len()]) || enc[j + 8 - prefix.len()]
                    == '%');
            }
        }
    }
    lemma_find_none(h, key, 0);
    assert(h.subrange(12, 12int + ext.len()) == ext);
    assert forall|j: int| 0 <= j < 12 implies !occurs_at(h, ext, j) by {
        if occurs_at(h, ext, j) {
            assert(h.subrange(j, j + ext.len())[0] == ext[0]);
        }
    }
    lemma_find_is(h, ext, 0, 12);
    let rest = h.skip(12int + ext.len());
    assert(rest.subrange(5, 5int + marker.len()) == marker);
    assert forall|j: int| 0 <= j < 5 implies !occurs_at(rest, marker, j) by {
        if occurs_at(rest, marker, j) {
            assert(rest.subrange(j, j + marker.len())[0] == marker[0]);
        }
    }
    lemma_find_is(rest, marker, 0, 5);
    let encoded = rest.skip(5int + marker.len());
    assert(encoded == enc);
    assert forall|j: int| 0 <= j implies !occurs_at(enc, semi, j) by {
        if occurs_at(enc, semi, j) {
            assert(enc.subrange(j, j + semi.len())[0] == semi[0]);
            assert(is_unreserved(enc[j]) || enc[j] == '%');
        }
    }
    lemma_find_none(enc, semi, 0);
}

/// Parsing a header value of the quoted form, rendering the name found in
/// the quoted form and parsing again gives the same name.
pub proof fn lemma_quoted_parse_render_parse(header: Seq<char>, name: Seq<char>)
    requires
        spec_disposition_name(header) == DispositionNameView::Plain(name),
        is_quoted_form(header),
    ensures
        spec_content_disposition(quoted_disposition(name)) == spec_content_disposition(header),
{
    let key = "filename="@;
    let quote = seq!['"'];
    let start = spec_find(header, key)->0;
    let rest = header.skip(start + key.len());
    let inner = rest.skip(1);
    let end = spec_find(inner, quote)->0;
    assert(first_at(inner, quote, 0, end));
    assert forall|j: int| 0 <= j < name.len() implies name[j] != '"' by {
        if name[j] == '"' {
            assert(inner.subrange(j, j + quote.len()) == quote);
            assert(occurs_at(inner, quote, j));
        }
    }
    lemma_quoted_round_trip(name);
}

/// The value names its file in double quotes: `filename="` stands in it
/// where `filename=` first does.
pub open spec fn is_quoted_form(header: Seq<char>) -> bool {
    match spec_find(header, "filename="@) {
        Some(start) => {
            let rest = header.skip(start + "filename="@.len());
            rest.len() > 0 && rest[0] == '"'
        },
        None => false,
    }
}

/// Whether the answer to the probe may be read: any `2xx` status.
pub open spec fn probe_status_ok(status: u16) -> bool {
    200 <= status < 300
}

/// Checks the status of the answer to the probe; a refusal is a network
/// error tagged with the status.
pub fn check_probe_status(status: u16) -> (r: Result<(), EngineError>)
    ensures
        r is Ok <==> probe_status_ok(status),
        r matches Err(e) ==> e@ == (EngineErrorView::Network {
            kind: NetworkErrorKind::HttpStatus(status),
            message: "HEAD request returned"@ + ": HTTP "@ + decimal(status as nat),
        }),
{
    if 200 <= status && status < 300 {
        Ok(())
    } else {
        Err(EngineError::http_status(status, "HEAD request returned"))
    }
}

/// The length that a `Content-Length` value states.
pub open spec fn spec_content_length(v: Option<String>) -> Option<u64> {
    match v {
        Some(s) => spec_parse_u64(s@),
        None => None,
    }
}

/// Whether an `Accept-Ranges` value offers byte ranges.
pub open spec fn spec_supports_range(v: Option<String>) -> bool {
    match v {
        Some(s) => contains_seq(s@, "bytes"@),
        None => false,
    }
}

/// The capabilities that the headers of the probe's answer state.
pub fn capabilities_from_headers(headers: &ProbeHeaders) -> (c: ServerCapabilities)
    ensures
        c.content_length == spec_content_length(headers.content_length),
        c.supports_range == spec_supports_range(headers.accept_ranges),
        c.etag == headers.etag,
        c.last_modified == headers.last_modified,
        opt_view(c.suggested_filename) == match headers.content_disposition {
            Some(h) => spec_content_disposition(h@),
            None => None,
        },
{
    let content_length = match &headers.content_length {
        Some(s) => {
            let chars = chars_of(s.as_str());
            parse_u64(&chars)
        },
        None => None,
    };
    let supports_range = match &headers.accept_ranges {
        Some(s) => {
            let chars = chars_of(s.as_str());
            let word = chars_of("bytes");
            contains(&chars, &word)
        },
        None => false,
    };
    let suggested_filename = match &headers.content_disposition {
        Some(h) => parse_content_disposition(h.as_str()),
        None => None,
    };
    ServerCapabilities {
        content_length,
        supports_range,
        etag: clone_opt(&headers.etag),
        last_modified: clone_opt(&headers.last_modified),
        suggested_filename,
    }
}

/// The name of the file that a download is saved as: the one that was
/// given, else the one the server suggests, made fit for every platform,
/// else `download`.
pub open spec fn spec_download_name(given: Option<Seq<char>>, suggested: Option<Seq<char>>) -> Seq<
    char,
> {
    match given {
        Some(name) => name,
        None => match suggested {
            Some(name) => spec_sanitize(name),
            None => "download"@,
        },
    }
}

/// The name of the file that a download is saved as.
pub fn download_name(given: &Option<String>, suggested: &Option<String>) -> (r: String)
    ensures
        r@ == spec_download_name(opt_view(*given), opt_view(*suggested)),
{
    match given {
        Some(name) => name.clone(),
        None => match suggested {
            Some(name) => sanitize_filename(name.as_str()),
            None => crate::text::owned("download"),
        },
    }
}

} // verus!
