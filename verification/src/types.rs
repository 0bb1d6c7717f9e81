//! Data model shared by the coordinator, the HTTP downloader, the torrent
//! engine and the persistent store.

use crate::text::{
    chars_of, eq_ignore_ascii_case, eq_ignoring_ascii_case, find, hex_digit, is_hex_digit, owned,
    slice, spec_find, string_of,
};
use vstd::prelude::*;

verus! {

// ---------------------------------------------------------------------------
// Hexadecimal text
// ---------------------------------------------------------------------------

/// The lowercase hexadecimal digit of a value below 16.
pub open spec fn hex_lower_digit(d: int) -> char {
    if d < 10 {
        ((0x30 + d) as u8) as char
    } else {
        ((0x61 + d - 10) as u8) as char
    }
}

/// `n` modulo `16^width` as `width` lowercase hexadecimal digits.
pub open spec fn hex_fixed(n: nat, width: nat) -> Seq<char>
    decreases width,
{
    if width == 0 {
        Seq::empty()
    } else {
        hex_fixed(n / 16, (width - 1) as nat).push(hex_lower_digit((n % 16) as int))
    }
}

/// The value of one hexadecimal digit of either case.
pub open spec fn hex_digit_value(c: char) -> int {
    let u = c as u32 as int;
    if u <= 0x39 {
        u - 0x30
    } else if u <= 0x46 {
        u - 0x41 + 10
    } else {
        u - 0x61 + 10
    }
}

/// The number that a row of hexadecimal digits stands for.
pub open spec fn hex_value(s: Seq<char>) -> int
    decreases s.len(),
{
    if s.len() == 0 {
        0
    } else {
        hex_value(s.drop_last()) * 16 + hex_digit_value(s.last())
    }
}

pub open spec fn all_hex_digits(s: Seq<char>) -> bool {
    forall|i: int| 0 <= i < s.len() ==> is_hex_digit(#[trigger] s[i])
}

pub open spec fn pow16(e: nat) -> nat
    decreases e,
{
    if e == 0 {
        1
    } else {
        16 * pow16((e - 1) as nat)
    }
}

pub proof fn lemma_hex_fixed_len(n: nat, width: nat)
    ensures
        hex_fixed(n, width).len() == width,
    decreases width,
{
    if width > 0 {
        lemma_hex_fixed_len(n / 16, (width - 1) as nat);
    }
}

pub proof fn lemma_hex_value_bounds(s: Seq<char>)
    requires
        all_hex_digits(s),
    ensures
        0 <= hex_value(s) < pow16(s.len()),
    decreases s.len(),
{
    if s.len() > 0 {
        assert(is_hex_digit(s[s.len() - 1]));
        lemma_hex_value_bounds(s.drop_last());
    }
}

/// Reading back what `hex_fixed` wrote gives the number modulo `16^width`.
pub proof fn lemma_hex_round_trip(n: nat, width: nat)
    ensures
        all_hex_digits(hex_fixed(n, width)),
        hex_value(hex_fixed(n, width)) == n % pow16(width),
    decreases width,
{
    if width > 0 {
        let w = (width - 1) as nat;
        lemma_hex_round_trip(n / 16, w);
        let s = hex_fixed(n, width);
        assert(s.drop_last() == hex_fixed(n / 16, w));
        let d = (n % 16) as int;
        assert(is_hex_digit(hex_lower_digit(d)) && hex_digit_value(hex_lower_digit(d)) == d);
        assert forall|i: int| 0 <= i < s.len() implies is_hex_digit(#[trigger] s[i]) by {
            lemma_hex_fixed_len(n / 16, w);
            if i < s.len() - 1 {
                assert(s[i] == s.drop_last()[i]);
            }
        }
        let p = pow16(w);
        assert(p > 0) by {
            lemma_pow16_positive(w);
        }
        vstd::arithmetic::div_mod::lemma_breakdown(n as int, 16, p as int);
        assert(16 * p == pow16(width));
    }
}

pub proof fn lemma_pow16_positive(e: nat)
    ensures
        pow16(e) > 0,
    decreases e,
{
    if e > 0 {
        lemma_pow16_positive((e - 1) as nat);
    }
}

/// Appends `n` modulo `16^width` as `width` lowercase hexadecimal digits.
pub fn push_hex_fixed(out: &mut Vec<char>, n: u64, width: u32)
    ensures
        final(out)@ == old(out)@ + hex_fixed(n as nat, width as nat),
    decreases width,
{
    if width == 0 {
        assert(old(out)@ + Seq::<char>::empty() == old(out)@);
        return ;
    }
    push_hex_fixed(out, n / 16, width - 1);
    let d: u8 = (n % 16) as u8;
    let c: char = if d < 10 {
        (0x30 + d) as char
    } else {
        (0x61 + d - 10) as char
    };
    out.push(c);
    assert((old(out)@ + hex_fixed((n / 16) as nat, (width - 1) as nat)).push(c) == old(out)@
        + hex_fixed((n / 16) as nat, (width - 1) as nat).push(c));
}

/// The number that exactly sixteen hexadecimal digits stand for.
pub open spec fn spec_parse_hex16(s: Seq<char>) -> Option<u64> {
    if s.len() == 16 && all_hex_digits(s) {
        Some(hex_value(s) as u64)
    } else {
        None
    }
}

/// Reads exactly sixteen hexadecimal digits of either case.
pub fn parse_hex16(s: &Vec<char>) -> (r: Option<u64>)
    ensures
        r == spec_parse_hex16(s@),
        r is Some ==> r.unwrap() == hex_value(s@),
{
    if s.len() != 16 {
        return None;
    }
    let mut acc: u64 = 0;
    let mut i: usize = 0;
    while i < 16
        invariant
            i <= 16,
            s.len() == 16,
            all_hex_digits(s@.take(i as int)),
            acc == hex_value(s@.take(i as int)),
            acc < pow16(i as nat),
        decreases 16 - i,
    {
        let c = s[i];
        if !hex_digit(c) {
            return None;
        }
        let u: u32 = c as u32;
        let d: u64 = if u <= 0x39 {
            (u - 0x30) as u64
        } else if u <= 0x46 {
            (u - 0x41 + 10) as u64
        } else {
            (u - 0x61 + 10) as u64
        };
        let ghost next = s@.take(i + 1);
        assert(next.drop_last() == s@.take(i as int));
        assert(next.last() == c);
        assert(all_hex_digits(next)) by {
            assert forall|j: int| 0 <= j < next.len() implies is_hex_digit(#[trigger] next[j]) by {
                if j < i {
                    assert(next[j] == s@.take(i as int)[j]);
                }
            }
        }
        proof {
            lemma_pow16_fits(i as nat);
            lemma_hex_value_bounds(next);
        }
        acc = acc * 16 + d;
        i += 1;
    }
    assert(s@.take(16) == s@);
    Some(acc)
}

pub proof fn lemma_pow16_fits(e: nat)
    requires
        e <= 16,
    ensures
        pow16(e) <= 0x1_0000_0000_0000_0000,
        e < 16 ==> pow16(e) * 16 <= 0x1_0000_0000_0000_0000,
    decreases 16 - e,
{
    reveal_with_fuel(pow16, 17);
}

// ---------------------------------------------------------------------------
// Download identifiers
// ---------------------------------------------------------------------------

/// What `uuid::Uuid::parse_str` reads from a text: the 128-bit value of the
/// UUID that the text spells in one of the forms the parser accepts, or
/// nothing.
pub uninterp spec fn uuid_parse_of(text: Seq<char>) -> Option<u128>;

/// The canonical text of a 128-bit identifier: its 32 lowercase hexadecimal
/// digits, most significant first, in groups of 8, 4, 4, 4 and 12 joined by
/// hyphens.
pub open spec fn canonical_uuid_text(v: u128) -> Seq<char> {
    let n = v as nat;
    hex_fixed(n / 0x1_0000_0000_0000_0000_0000_0000, 8) + seq!['-'] + hex_fixed(
        n / 0x1_0000_0000_0000_0000_0000,
        4,
    ) + seq!['-'] + hex_fixed(n / 0x1_0000_0000_0000_0000, 4) + seq!['-'] + hex_fixed(
        n / 0x1_0000_0000_0000,
        4,
    ) + seq!['-'] + hex_fixed(n, 12)
}

/// `uuid::Uuid::parse_str`, then `Uuid::as_u128`: the value of the UUID that
/// the text spells, if it spells one.
#[verifier::external_body]
fn uuid_parse(text: &str) -> (r: Option<u128>)
    ensures
        r == uuid_parse_of(text@),
{
    uuid::Uuid::parse_str(text).ok().map(|u| u.as_u128())
}

/// `uuid::Uuid::from_u128`, then the `Display` of `Uuid`: the hyphenated
/// lowercase text of the value, which `parse_str` reads back as the same
/// value.
#[verifier::external_body]
fn uuid_text(value: u128) -> (r: String)
    ensures
        r@ == canonical_uuid_text(value),
        uuid_parse_of(r@) == Some(value),
{
    uuid::Uuid::from_u128(value).to_string()
}

/// The value is that of a random UUID: its version is 4 and its variant is
/// the one of RFC 9562.
pub open spec fn is_random_uuid(v: u128) -> bool {
    &&& (v as nat / 0x1000_0000_0000_0000_0000) % 16 == 4
    &&& (v as nat / 0x4000_0000_0000_0000) % 4 == 2
}

/// `uuid::Uuid::new_v4`: a random UUID, as its 128-bit value. Whatever is
/// drawn, the version is 4 and the variant is the one of RFC 9562.
#[verifier::external_body]
fn uuid_random() -> (r: u128)
    ensures
        is_random_uuid(r),
{
    uuid::Uuid::new_v4().as_u128()
}

/// Opaque 128-bit identifier of a download, stable across restarts.
#[derive(Clone, Copy, Debug, PartialEq, Eq, Hash, Structural)]
pub struct DownloadId {
    pub value: u128,
}

/// The identifier that a legacy 16-digit text stands for: its digits are
/// the upper 64 bits, the lower 64 bits are zero.
pub open spec fn legacy_id_value(s: Seq<char>) -> Option<u128> {
    match spec_parse_hex16(s) {
        Some(high) => Some((high as nat * 0x1_0000_0000_0000_0000) as u128),
        None => None,
    }
}

/// The identifier that a text stands for at an external boundary: a UUID
/// text first, else the legacy 16-digit form.
pub open spec fn parse_id_text(canonical: Option<u128>, text: Seq<char>) -> Option<DownloadId> {
    match canonical {
        Some(v) => Some(DownloadId { value: v }),
        None => match legacy_id_value(text) {
            Some(v) => Some(DownloadId { value: v }),
            None => None,
        },
    }
}

impl DownloadId {
    /// A fresh random identifier: a UUID of version 4.
    pub fn new() -> (id: DownloadId)
        ensures
            is_random_uuid(id.value),
    {
        DownloadId { value: uuid_random() }
    }

    pub fn from_u128(value: u128) -> (id: DownloadId)
        ensures
            id.value == value,
    {
        DownloadId { value }
    }

    pub fn as_u128(&self) -> (v: u128)
        ensures
            v == self.value,
    {
        self.value
    }

    /// The canonical UUID text of the identifier.
    pub fn to_text(&self) -> (r: String)
        ensures
            r@ == canonical_uuid_text(self.value),
            uuid_parse_of(r@) == Some(self.value),
    {
        uuid_text(self.value)
    }

    /// The legacy compact form: the upper 64 bits as 16 hexadecimal digits.
    pub fn to_gid(&self) -> (r: String)
        ensures
            r@ == hex_fixed(self.value as nat / 0x1_0000_0000_0000_0000, 16),
    {
        let high: u64 = (self.value / 0x1_0000_0000_0000_0000u128) as u64;
        let mut out: Vec<char> = Vec::new();
        push_hex_fixed(&mut out, high, 16);
        assert(Seq::<char>::empty() + hex_fixed(high as nat, 16) == hex_fixed(high as nat, 16));
        string_of(&out)
    }

    /// Reads the legacy compact form: exactly 16 hexadecimal digits.
    pub fn from_gid(gid: &str) -> (r: Option<DownloadId>)
        ensures
            r == match legacy_id_value(gid@) {
                Some(v) => Some(DownloadId { value: v }),
                None => None,
            },
    {
        let chars = chars_of(gid);
        match parse_hex16(&chars) {
            Some(high) => {
                let value: u128 = (high as u128) * 0x1_0000_0000_0000_0000u128;
                Some(DownloadId { value })
            },
            None => None,
        }
    }

    /// Reads the text of a UUID in one of the forms that the UUID parser
    /// accepts.
    pub fn parse_uuid(text: &str) -> (r: Option<DownloadId>)
        ensures
            r == match uuid_parse_of(text@) {
                Some(value) => Some(DownloadId { value }),
                None => None,
            },
    {
        match uuid_parse(text) {
            Some(value) => Some(DownloadId { value }),
            None => None,
        }
    }

    /// What a text stands for once the UUID parser has answered: `canonical`
    /// is that answer.
    pub fn from_parsed(canonical: Option<u128>, text: &str) -> (r: Option<DownloadId>)
        ensures
            r == parse_id_text(canonical, text@),
    {
        match canonical {
            Some(v) => Some(DownloadId { value: v }),
            None => DownloadId::from_gid(text),
        }
    }

    /// Reads an identifier at an external boundary: canonical UUID text, or
    /// the legacy 16-digit form.
    pub fn parse(text: &str) -> (r: Option<DownloadId>)
        ensures
            r == parse_id_text(uuid_parse_of(text@), text@),
    {
        let canonical = uuid_parse(text);
        DownloadId::from_parsed(canonical, text)
    }
}

/// The legacy form of an identifier is read back as the identifier with its
/// lower 64 bits cleared.
pub proof fn lemma_gid_round_trip(id: DownloadId)
    ensures
        legacy_id_value(hex_fixed(id.value as nat / 0x1_0000_0000_0000_0000, 16)) == Some(
            ((id.value as nat / 0x1_0000_0000_0000_0000) * 0x1_0000_0000_0000_0000) as u128,
        ),
{
    let high = id.value as nat / 0x1_0000_0000_0000_0000;
    lemma_hex_round_trip(high, 16);
    lemma_hex_fixed_len(high, 16);
    reveal_with_fuel(pow16, 17);
    assert(pow16(16) == 0x1_0000_0000_0000_0000);
}

// ---------------------------------------------------------------------------
// Points in time
// ---------------------------------------------------------------------------

/// A point in time: whole seconds since the Unix epoch and the nanoseconds
/// within the second.
#[derive(Clone, Copy, Debug, PartialEq, Eq, Structural)]
pub struct Timestamp {
    pub secs: i64,
    pub nanos: u32,
}

/// What `chrono::DateTime::parse_from_rfc3339` reads from a text, as a UTC
/// point in time, or nothing.
pub uninterp spec fn rfc3339_parse_of(text: Seq<char>) -> Option<Timestamp>;

/// What `chrono::DateTime::<Utc>::to_rfc3339` writes for a point in time
/// that `DateTime::from_timestamp` accepts, or nothing where it does not.
pub uninterp spec fn rfc3339_text_of(secs: i64, nanos: u32) -> Option<Seq<char>>;

/// `chrono::DateTime::parse_from_rfc3339`, then `with_timezone(&Utc)`,
/// `timestamp` and `timestamp_subsec_nanos`.
#[verifier::external_body]
fn rfc3339_parse(text: &str) -> (r: Option<Timestamp>)
    ensures
        r == rfc3339_parse_of(text@),
{
    chrono::DateTime::parse_from_rfc3339(text).ok().map(
        |d| {
            let u = d.with_timezone(&chrono::Utc);
            Timestamp { secs: u.timestamp(), nanos: u.timestamp_subsec_nanos() }
        },
    )
}

/// `chrono::DateTime::from_timestamp`, then `to_rfc3339`. The text of a point
/// in time in a year of four digits, with less than a second of
/// nanoseconds, is read back by `parse_from_rfc3339` as that point in time.
#[verifier::external_body]
fn rfc3339_text(t: Timestamp) -> (r: Option<String>)
    ensures
        match r {
            Some(s) => rfc3339_text_of(t.secs, t.nanos) == Some(s@) && (t.is_plain()
                ==> rfc3339_parse_of(s@) == Some(t)),
            None => rfc3339_text_of(t.secs, t.nanos) is None,
        },
{
    chrono::DateTime::from_timestamp(t.secs, t.nanos).map(|d| d.to_rfc3339())
}

/// `chrono::Utc::now`, as seconds and nanoseconds since the Unix epoch.
/// The time that it returns is not before the epoch, since it does not
/// return where the clock of the system reads a time before 1970, and has
/// less than a second of nanoseconds.
#[verifier::external_body]
fn utc_now() -> (t: Timestamp)
    ensures
        t.secs >= 0,
        t.nanos < 1_000_000_000,
{
    let now = chrono::Utc::now();
    Timestamp { secs: now.timestamp(), nanos: now.timestamp_subsec_nanos() }
}

impl Timestamp {
    /// Whether the point in time lies in the years 0000 to 9999 and has
    /// less than a second of nanoseconds: RFC 3339 has a text for it.
    pub open spec fn is_plain(self) -> bool {
        &&& self.nanos < 1_000_000_000
        &&& -62_167_219_200 <= self.secs <= 253_402_300_799
    }

    /// The current time, which is not before the Unix epoch and has less
    /// than a second of nanoseconds.
    pub fn now() -> (t: Timestamp)
        ensures
            t.secs >= 0,
            t.nanos < 1_000_000_000,
    {
        utc_now()
    }

    /// The RFC 3339 text of the point in time, where the calendar can
    /// express it.
    pub fn to_rfc3339(&self) -> (r: Option<String>)
        ensures
            match r {
                Some(s) => rfc3339_text_of(self.secs, self.nanos) == Some(s@) && (self.is_plain()
                    ==> rfc3339_parse_of(s@) == Some(*self)),
                None => rfc3339_text_of(self.secs, self.nanos) is None,
            },
    {
        rfc3339_text(*self)
    }

    /// Reads an RFC 3339 text.
    pub fn parse_rfc3339(text: &str) -> (r: Option<Timestamp>)
        ensures
            r == rfc3339_parse_of(text@),
    {
        rfc3339_parse(text)
    }

    /// Whole hours from `earlier` to `self`, rounded toward zero, the two
    /// taken to the nanosecond.
    pub open spec fn spec_hours_since(self, earlier: Timestamp) -> int {
        let nanos = (self.secs - earlier.secs) * 1_000_000_000 + (self.nanos - earlier.nanos);
        if nanos >= 0 {
            nanos / 3_600_000_000_000
        } else {
            -((-nanos) / 3_600_000_000_000)
        }
    }

    /// Whether at least `hours` whole hours lie between `earlier` and `self`.
    pub fn at_least_hours_after(&self, earlier: &Timestamp, hours: u32) -> (r: bool)
        ensures
            r == (self.spec_hours_since(*earlier) >= hours),
    {
        let a: i128 = (self.secs as i128 - earlier.secs as i128) * 1_000_000_000 + (
        self.nanos as i128 - earlier.nanos as i128);
        let need: i128 = (hours as i128) * 3_600_000_000_000;
        proof {
            let h = hours as int;
            let q = a as int / 3_600_000_000_000;
            if a >= 0 {
                assert((q >= h) == (a as int >= h * 3_600_000_000_000)) by (nonlinear_arith)
                    requires
                        q == a as int / 3_600_000_000_000,
                ;
            } else {
                let m = (-a) as int / 3_600_000_000_000;
                assert(m >= 0) by (nonlinear_arith)
                    requires
                        m == (-a) as int / 3_600_000_000_000,
                        -a >= 0,
                ;
            }
        }
        if hours == 0 {
            a > -3_600_000_000_000
        } else {
            a >= need
        }
    }
}

// ---------------------------------------------------------------------------
// Kinds and states
// ---------------------------------------------------------------------------

/// Protocol family of a download.
#[derive(Clone, Copy, Debug, PartialEq, Eq, Structural)]
pub enum DownloadKind {
    Http,
    Torrent,
    Magnet,
}

/// A download state without its payload.
#[derive(Clone, Copy, Debug, PartialEq, Eq, Structural)]
pub enum StateTag {
    Queued,
    Connecting,
    Downloading,
    Seeding,
    Paused,
    Completed,
    Error,
}

/// Lifecycle state of a download.
#[derive(Debug)]
pub enum DownloadState {
    Queued,
    Connecting,
    Downloading,
    Seeding,
    Paused,
    Completed,
    Error { kind: String, message: String, retryable: bool },
}

/// A `DownloadState` with its texts as character sequences.
pub enum DownloadStateView {
    Queued,
    Connecting,
    Downloading,
    Seeding,
    Paused,
    Completed,
    Error { kind: Seq<char>, message: Seq<char>, retryable: bool },
}

impl View for DownloadState {
    type V = DownloadStateView;

    open spec fn view(&self) -> DownloadStateView {
        match self {
            DownloadState::Queued => DownloadStateView::Queued,
            DownloadState::Connecting => DownloadStateView::Connecting,
            DownloadState::Downloading => DownloadStateView::Downloading,
            DownloadState::Seeding => DownloadStateView::Seeding,
            DownloadState::Paused => DownloadStateView::Paused,
            DownloadState::Completed => DownloadStateView::Completed,
            DownloadState::Error { kind, message, retryable } => DownloadStateView::Error {
                kind: kind@,
                message: message@,
                retryable: *retryable,
            },
        }
    }
}

impl DownloadStateView {
    pub open spec fn tag(self) -> StateTag {
        match self {
            DownloadStateView::Queued => StateTag::Queued,
            DownloadStateView::Connecting => StateTag::Connecting,
            DownloadStateView::Downloading => StateTag::Downloading,
            DownloadStateView::Seeding => StateTag::Seeding,
            DownloadStateView::Paused => StateTag::Paused,
            DownloadStateView::Completed => StateTag::Completed,
            DownloadStateView::Error { .. } => StateTag::Error,
        }
    }
}

impl Clone for DownloadState {
    fn clone(&self) -> (r: Self)
        ensures
            r == *self,
    {
        match self {
            DownloadState::Queued => DownloadState::Queued,
            DownloadState::Connecting => DownloadState::Connecting,
            DownloadState::Downloading => DownloadState::Downloading,
            DownloadState::Seeding => DownloadState::Seeding,
            DownloadState::Paused => DownloadState::Paused,
            DownloadState::Completed => DownloadState::Completed,
            DownloadState::Error { kind, message, retryable } => DownloadState::Error {
                kind: kind.clone(),
                message: message.clone(),
                retryable: *retryable,
            },
        }
    }
}

/// The lifecycle table: which state may follow which.
pub open spec fn transition_allowed(from: StateTag, to: StateTag) -> bool {
    match (from, to) {
        (StateTag::Queued, StateTag::Connecting) => true,
        (StateTag::Connecting, StateTag::Downloading) => true,
        (StateTag::Downloading, StateTag::Paused) => true,
        (StateTag::Downloading, StateTag::Completed) => true,
        (StateTag::Downloading, StateTag::Seeding) => true,
        (StateTag::Seeding, StateTag::Completed) => true,
        (StateTag::Downloading, StateTag::Error) => true,
        (StateTag::Connecting, StateTag::Error) => true,
        (StateTag::Paused, StateTag::Connecting) => true,
        _ => false,
    }
}

impl StateTag {
    /// A task is at work on the download.
    pub open spec fn spec_is_active(self) -> bool {
        self == StateTag::Connecting || self == StateTag::Downloading || self == StateTag::Seeding
    }

    /// Nothing is at work on the download and nothing is waiting to start.
    pub open spec fn spec_is_stopped(self) -> bool {
        self == StateTag::Paused || self == StateTag::Completed || self == StateTag::Error
    }

    /// The name under which the state is stored and shown.
    pub open spec fn name(self) -> Seq<char> {
        match self {
            StateTag::Queued => "queued"@,
            StateTag::Connecting => "connecting"@,
            StateTag::Downloading => "downloading"@,
            StateTag::Seeding => "seeding"@,
            StateTag::Paused => "paused"@,
            StateTag::Completed => "completed"@,
            StateTag::Error => "error"@,
        }
    }

    #[verifier::when_used_as_spec(spec_is_active)]
    pub fn is_active(self) -> (r: bool)
        ensures
            r == self.spec_is_active(),
    {
        match self {
            StateTag::Connecting | StateTag::Downloading | StateTag::Seeding => true,
            _ => false,
        }
    }

    #[verifier::when_used_as_spec(spec_is_stopped)]
    pub fn is_stopped(self) -> (r: bool)
        ensures
            r == self.spec_is_stopped(),
    {
        match self {
            StateTag::Paused | StateTag::Completed | StateTag::Error => true,
            _ => false,
        }
    }

    /// Whether the lifecycle table holds the step from `self` to `to`.
    pub fn may_become(self, to: StateTag) -> (r: bool)
        ensures
            r == transition_allowed(self, to),
    {
        match (self, to) {
            (StateTag::Queued, StateTag::Connecting) => true,
            (StateTag::Connecting, StateTag::Downloading) => true,
            (StateTag::Downloading, StateTag::Paused) => true,
            (StateTag::Downloading, StateTag::Completed) => true,
            (StateTag::Downloading, StateTag::Seeding) => true,
            (StateTag::Seeding, StateTag::Completed) => true,
            (StateTag::Downloading, StateTag::Error) => true,
            (StateTag::Connecting, StateTag::Error) => true,
            (StateTag::Paused, StateTag::Connecting) => true,
            _ => false,
        }
    }

    pub fn to_name(self) -> (r: String)
        ensures
            r@ == self.name(),
    {
        match self {
            StateTag::Queued => owned("queued"),
            StateTag::Connecting => owned("connecting"),
            StateTag::Downloading => owned("downloading"),
            StateTag::Seeding => owned("seeding"),
            StateTag::Paused => owned("paused"),
            StateTag::Completed => owned("completed"),
            StateTag::Error => owned("error"),
        }
    }
}

impl DownloadState {
    pub open spec fn spec_tag(&self) -> StateTag {
        match self {
            DownloadState::Queued => StateTag::Queued,
            DownloadState::Connecting => StateTag::Connecting,
            DownloadState::Downloading => StateTag::Downloading,
            DownloadState::Seeding => StateTag::Seeding,
            DownloadState::Paused => StateTag::Paused,
            DownloadState::Completed => StateTag::Completed,
            DownloadState::Error { .. } => StateTag::Error,
        }
    }

    #[verifier::when_used_as_spec(spec_tag)]
    pub fn tag(&self) -> (t: StateTag)
        ensures
            t == self.spec_tag(),
    {
        match self {
            DownloadState::Queued => StateTag::Queued,
            DownloadState::Connecting => StateTag::Connecting,
            DownloadState::Downloading => StateTag::Downloading,
            DownloadState::Seeding => StateTag::Seeding,
            DownloadState::Paused => StateTag::Paused,
            DownloadState::Completed => StateTag::Completed,
            DownloadState::Error { .. } => StateTag::Error,
        }
    }

    /// A task is at work on the download.
    pub fn is_active(&self) -> (r: bool)
        ensures
            r == self.spec_tag().spec_is_active(),
    {
        self.tag().is_active()
    }
}

// ---------------------------------------------------------------------------
// Records
// ---------------------------------------------------------------------------

/// Transfer counters of a download.
#[derive(Clone, Copy, Debug, PartialEq, Eq, Structural)]
pub struct DownloadProgress {
    pub total_size: Option<u64>,
    pub completed_size: u64,
    pub download_speed: u64,
    pub upload_speed: u64,
    pub connections: u32,
    pub seeders: u32,
    pub peers: u32,
    pub eta_seconds: Option<u64>,
}

/// Seconds until `remaining` bytes are through at `speed` bytes a second;
/// undefined while nothing moves.
pub open spec fn spec_eta(remaining: u64, speed: u64) -> Option<u64> {
    if speed > 0 {
        Some(remaining / speed)
    } else {
        None
    }
}

pub fn eta(remaining: u64, speed: u64) -> (r: Option<u64>)
    ensures
        r == spec_eta(remaining, speed),
{
    if speed > 0 {
        Some(remaining / speed)
    } else {
        None
    }
}

impl DownloadProgress {
    pub open spec fn spec_zero() -> DownloadProgress {
        DownloadProgress {
            total_size: None,
            completed_size: 0,
            download_speed: 0,
            upload_speed: 0,
            connections: 0,
            seeders: 0,
            peers: 0,
            eta_seconds: None,
        }
    }

    /// Progress of a download that has not moved yet.
    #[verifier::when_used_as_spec(spec_zero)]
    pub fn zero() -> (p: DownloadProgress)
        ensures
            p == DownloadProgress::spec_zero(),
    {
        DownloadProgress {
            total_size: None,
            completed_size: 0,
            download_speed: 0,
            upload_speed: 0,
            connections: 0,
            seeders: 0,
            peers: 0,
            eta_seconds: None,
        }
    }
}

impl Default for DownloadProgress {
    fn default() -> (p: DownloadProgress)
        ensures
            p == DownloadProgress::spec_zero(),
    {
        DownloadProgress::zero()
    }
}

/// The text of an optional string.
pub open spec fn opt_view(o: Option<String>) -> Option<Seq<char>> {
    match o {
        Some(s) => Some(s@),
        None => None,
    }
}

/// The texts of a list of strings.
pub open spec fn strings_view(v: Seq<String>) -> Seq<Seq<char>> {
    v.map_values(|s: String| s@)
}

/// The texts of a list of name and value pairs.
pub open spec fn pairs_view(v: Seq<(String, String)>) -> Seq<(Seq<char>, Seq<char>)> {
    v.map_values(|p: (String, String)| (p.0@, p.1@))
}

/// Copy of a list of header pairs.
pub fn clone_pairs(v: &Vec<(String, String)>) -> (r: Vec<(String, String)>)
    ensures
        r@ == v@,
        pairs_view(r@) == pairs_view(v@),
{
    let mut r: Vec<(String, String)> = Vec::new();
    let mut i: usize = 0;
    while i < v.len()
        invariant
            i <= v.len(),
            r@ == v@.take(i as int),
        decreases v.len() - i,
    {
        r.push((v[i].0.clone(), v[i].1.clone()));
        i += 1;
    }
    assert(v@.take(v.len() as int) == v@);
    r
}

/// Copy of a list of texts.
pub fn clone_strings(v: &Vec<String>) -> (r: Vec<String>)
    ensures
        r@ == v@,
        strings_view(r@) == strings_view(v@),
{
    let mut r: Vec<String> = Vec::new();
    let mut i: usize = 0;
    while i < v.len()
        invariant
            i <= v.len(),
            r@ == v@.take(i as int),
        decreases v.len() - i,
    {
        r.push(v[i].clone());
        i += 1;
    }
    assert(v@.take(v.len() as int) == v@);
    r
}

/// Copy of an optional text.
pub fn clone_opt(s: &Option<String>) -> (r: Option<String>)
    ensures
        r == *s,
{
    match s {
        Some(x) => Some(x.clone()),
        None => None,
    }
}

/// Description of a download, fixed at creation but for `filename`.
#[derive(Debug)]
pub struct DownloadMetadata {
    pub name: String,
    pub url: Option<String>,
    pub magnet_uri: Option<String>,
    pub info_hash: Option<String>,
    pub save_dir: String,
    pub filename: Option<String>,
    pub user_agent: Option<String>,
    pub referer: Option<String>,
    pub headers: Vec<(String, String)>,
}

pub struct DownloadMetadataView {
    pub name: Seq<char>,
    pub url: Option<Seq<char>>,
    pub magnet_uri: Option<Seq<char>>,
    pub info_hash: Option<Seq<char>>,
    pub save_dir: Seq<char>,
    pub filename: Option<Seq<char>>,
    pub user_agent: Option<Seq<char>>,
    pub referer: Option<Seq<char>>,
    pub headers: Seq<(Seq<char>, Seq<char>)>,
}

impl View for DownloadMetadata {
    type V = DownloadMetadataView;

    open spec fn view(&self) -> DownloadMetadataView {
        DownloadMetadataView {
            name: self.name@,
            url: opt_view(self.url),
            magnet_uri: opt_view(self.magnet_uri),
            info_hash: opt_view(self.info_hash),
            save_dir: self.save_dir@,
            filename: opt_view(self.filename),
            user_agent: opt_view(self.user_agent),
            referer: opt_view(self.referer),
            headers: pairs_view(self.headers@),
        }
    }
}

impl Clone for DownloadMetadata {
    fn clone(&self) -> (r: Self)
        ensures
            r@ == self@,
    {
        DownloadMetadata {
            name: self.name.clone(),
            url: clone_opt(&self.url),
            magnet_uri: clone_opt(&self.magnet_uri),
            info_hash: clone_opt(&self.info_hash),
            save_dir: self.save_dir.clone(),
            filename: clone_opt(&self.filename),
            user_agent: clone_opt(&self.user_agent),
            referer: clone_opt(&self.referer),
            headers: clone_pairs(&self.headers),
        }
    }
}

/// One file of a torrent as the status reports it.
#[derive(Debug)]
pub struct TorrentFile {
    pub index: usize,
    pub path: String,
    pub size: u64,
    pub completed: u64,
    pub selected: bool,
}

impl Clone for TorrentFile {
    fn clone(&self) -> (r: Self)
        ensures
            r == *self,
    {
        TorrentFile {
            index: self.index,
            path: self.path.clone(),
            size: self.size,
            completed: self.completed,
            selected: self.selected,
        }
    }
}

/// The files of a torrent as the status reports them.
#[derive(Debug)]
pub struct TorrentStatusInfo {
    pub files: Vec<TorrentFile>,
}

impl Clone for TorrentStatusInfo {
    fn clone(&self) -> (r: Self)
        ensures
            r.files@ == self.files@,
    {
        let mut files: Vec<TorrentFile> = Vec::new();
        let mut i: usize = 0;
        while i < self.files.len()
            invariant
                i <= self.files.len(),
                files@ == self.files@.take(i as int),
            decreases self.files.len() - i,
        {
            files.push(self.files[i].clone());
            i += 1;
        }
        assert(self.files@.take(self.files.len() as int) == self.files@);
        TorrentStatusInfo { files }
    }
}

/// One connected peer as the status reports it.
#[derive(Debug)]
pub struct PeerInfo {
    pub ip: String,
    pub port: u16,
    pub client: Option<String>,
    pub download_speed: u64,
    pub upload_speed: u64,
}

impl Clone for PeerInfo {
    fn clone(&self) -> (r: Self)
        ensures
            r == *self,
    {
        PeerInfo {
            ip: self.ip.clone(),
            port: self.port,
            client: clone_opt(&self.client),
            download_speed: self.download_speed,
            upload_speed: self.upload_speed,
        }
    }
}

/// Copy of a list of peers.
pub fn clone_peers(v: &Vec<PeerInfo>) -> (r: Vec<PeerInfo>)
    ensures
        r@ == v@,
{
    let mut r: Vec<PeerInfo> = Vec::new();
    let mut i: usize = 0;
    while i < v.len()
        invariant
            i <= v.len(),
            r@ == v@.take(i as int),
        decreases v.len() - i,
    {
        r.push(v[i].clone());
        i += 1;
    }
    assert(v@.take(v.len() as int) == v@);
    r
}

/// The files that a status reports, if it reports any.
pub open spec fn files_view(t: Option<TorrentStatusInfo>) -> Option<Seq<TorrentFile>> {
    match t {
        Some(info) => Some(info.files@),
        None => None,
    }
}

/// The peers that a status reports, if it reports any.
pub open spec fn peers_view(p: Option<Vec<PeerInfo>>) -> Option<Seq<PeerInfo>> {
    match p {
        Some(v) => Some(v@),
        None => None,
    }
}

/// Everything the coordinator knows of one download.
#[derive(Debug)]
pub struct DownloadStatus {
    pub id: DownloadId,
    pub kind: DownloadKind,
    pub state: DownloadState,
    pub progress: DownloadProgress,
    pub metadata: DownloadMetadata,
    pub created_at: Timestamp,
    pub completed_at: Option<Timestamp>,
    pub torrent_info: Option<TorrentStatusInfo>,
    pub peers: Option<Vec<PeerInfo>>,
}

pub struct DownloadStatusView {
    pub id: DownloadId,
    pub kind: DownloadKind,
    pub state: DownloadStateView,
    pub progress: DownloadProgress,
    pub metadata: DownloadMetadataView,
    pub created_at: Timestamp,
    pub completed_at: Option<Timestamp>,
    pub files: Option<Seq<TorrentFile>>,
    pub peers: Option<Seq<PeerInfo>>,
}

impl View for DownloadStatus {
    type V = DownloadStatusView;

    open spec fn view(&self) -> DownloadStatusView {
        DownloadStatusView {
            id: self.id,
            kind: self.kind,
            state: self.state@,
            progress: self.progress,
            metadata: self.metadata@,
            created_at: self.created_at,
            completed_at: self.completed_at,
            files: files_view(self.torrent_info),
            peers: peers_view(self.peers),
        }
    }
}

impl Clone for DownloadStatus {
    fn clone(&self) -> (r: Self)
        ensures
            r@ == self@,
    {
        let torrent_info = match &self.torrent_info {
            Some(t) => Some(t.clone()),
            None => None,
        };
        let peers = match &self.peers {
            Some(p) => Some(clone_peers(p)),
            None => None,
        };
        DownloadStatus {
            id: self.id,
            kind: self.kind,
            state: self.state.clone(),
            progress: self.progress,
            metadata: self.metadata.clone(),
            created_at: self.created_at,
            completed_at: self.completed_at,
            torrent_info,
            peers,
        }
    }
}

/// Totals over all downloads of the coordinator.
#[derive(Clone, Copy, Debug, PartialEq, Eq, Structural)]
pub struct GlobalStats {
    pub download_speed: u64,
    pub upload_speed: u64,
    pub num_active: usize,
    pub num_waiting: usize,
    pub num_stopped: usize,
}

/// Kind of a lifecycle event, without its payload.
#[derive(Clone, Copy, Debug, PartialEq, Eq, Structural)]
pub enum EventKind {
    Added,
    Started,
    Progress,
    StateChanged,
    Completed,
    Failed,
    Paused,
    Resumed,
    Removed,
}

/// One lifecycle event, broadcast to every subscriber.
#[derive(Debug)]
pub enum DownloadEvent {
    Added { id: DownloadId },
    Started { id: DownloadId },
    Progress { id: DownloadId, progress: DownloadProgress },
    StateChanged { id: DownloadId, old_state: DownloadState, new_state: DownloadState },
    Completed { id: DownloadId },
    Failed { id: DownloadId, error: String, retryable: bool },
    Paused { id: DownloadId },
    Resumed { id: DownloadId },
    Removed { id: DownloadId },
}

impl DownloadEvent {
    pub open spec fn spec_id(&self) -> DownloadId {
        match self {
            DownloadEvent::Added { id } => *id,
            DownloadEvent::Started { id } => *id,
            DownloadEvent::Progress { id, .. } => *id,
            DownloadEvent::StateChanged { id, .. } => *id,
            DownloadEvent::Completed { id } => *id,
            DownloadEvent::Failed { id, .. } => *id,
            DownloadEvent::Paused { id } => *id,
            DownloadEvent::Resumed { id } => *id,
            DownloadEvent::Removed { id } => *id,
        }
    }

    pub open spec fn spec_kind(&self) -> EventKind {
        match self {
            DownloadEvent::Added { .. } => EventKind::Added,
            DownloadEvent::Started { .. } => EventKind::Started,
            DownloadEvent::Progress { .. } => EventKind::Progress,
            DownloadEvent::StateChanged { .. } => EventKind::StateChanged,
            DownloadEvent::Completed { .. } => EventKind::Completed,
            DownloadEvent::Failed { .. } => EventKind::Failed,
            DownloadEvent::Paused { .. } => EventKind::Paused,
            DownloadEvent::Resumed { .. } => EventKind::Resumed,
            DownloadEvent::Removed { .. } => EventKind::Removed,
        }
    }

    /// The download that the event is about.
    #[verifier::when_used_as_spec(spec_id)]
    pub fn id(&self) -> (r: DownloadId)
        ensures
            r == self.spec_id(),
    {
        match self {
            DownloadEvent::Added { id } => *id,
            DownloadEvent::Started { id } => *id,
            DownloadEvent::Progress { id, .. } => *id,
            DownloadEvent::StateChanged { id, .. } => *id,
            DownloadEvent::Completed { id } => *id,
            DownloadEvent::Failed { id, .. } => *id,
            DownloadEvent::Paused { id } => *id,
            DownloadEvent::Resumed { id } => *id,
            DownloadEvent::Removed { id } => *id,
        }
    }

    #[verifier::when_used_as_spec(spec_kind)]
    pub fn kind(&self) -> (r: EventKind)
        ensures
            r == self.spec_kind(),
    {
        match self {
            DownloadEvent::Added { .. } => EventKind::Added,
            DownloadEvent::Started { .. } => EventKind::Started,
            DownloadEvent::Progress { .. } => EventKind::Progress,
            DownloadEvent::StateChanged { .. } => EventKind::StateChanged,
            DownloadEvent::Completed { .. } => EventKind::Completed,
            DownloadEvent::Failed { .. } => EventKind::Failed,
            DownloadEvent::Paused { .. } => EventKind::Paused,
            DownloadEvent::Resumed { .. } => EventKind::Resumed,
            DownloadEvent::Removed { .. } => EventKind::Removed,
        }
    }
}

impl EventKind {
    /// The discriminator under which an event of this kind is serialised.
    pub open spec fn name(self) -> Seq<char> {
        match self {
            EventKind::Added => "download:added"@,
            EventKind::Started => "download:started"@,
            EventKind::Progress => "download:progress"@,
            EventKind::StateChanged => "download:state-changed"@,
            EventKind::Completed => "download:completed"@,
            EventKind::Failed => "download:failed"@,
            EventKind::Removed => "download:removed"@,
            EventKind::Paused => "download:paused"@,
            EventKind::Resumed => "download:resumed"@,
        }
    }

    pub fn to_name(self) -> (r: String)
        ensures
            r@ == self.name(),
    {
        match self {
            EventKind::Added => owned("download:added"),
            EventKind::Started => owned("download:started"),
            EventKind::Progress => owned("download:progress"),
            EventKind::StateChanged => owned("download:state-changed"),
            EventKind::Completed => owned("download:completed"),
            EventKind::Failed => owned("download:failed"),
            EventKind::Removed => owned("download:removed"),
            EventKind::Paused => owned("download:paused"),
            EventKind::Resumed => owned("download:resumed"),
        }
    }
}

// ---------------------------------------------------------------------------
// Options of one download
// ---------------------------------------------------------------------------

/// How urgent a download is.
#[derive(Clone, Copy, Debug, PartialEq, Eq, Structural)]
pub enum DownloadPriority {
    Low,
    Normal,
    High,
    Critical,
}

/// The priority that a word names, whatever the case of its letters.
pub open spec fn spec_parse_priority(s: Seq<char>) -> Option<DownloadPriority> {
    if eq_ignoring_ascii_case(s, "low"@) {
        Some(DownloadPriority::Low)
    } else if eq_ignoring_ascii_case(s, "normal"@) {
        Some(DownloadPriority::Normal)
    } else if eq_ignoring_ascii_case(s, "high"@) {
        Some(DownloadPriority::High)
    } else if eq_ignoring_ascii_case(s, "critical"@) {
        Some(DownloadPriority::Critical)
    } else {
        None
    }
}

impl DownloadPriority {
    /// Reads `low`, `normal`, `high` or `critical`.
    pub fn parse(s: &str) -> (r: Option<DownloadPriority>)
        ensures
            r == spec_parse_priority(s@),
    {
        let word = chars_of(s);
        if eq_ignore_ascii_case(&word, &chars_of("low")) {
            Some(DownloadPriority::Low)
        } else if eq_ignore_ascii_case(&word, &chars_of("normal")) {
            Some(DownloadPriority::Normal)
        } else if eq_ignore_ascii_case(&word, &chars_of("high")) {
            Some(DownloadPriority::High)
        } else if eq_ignore_ascii_case(&word, &chars_of("critical")) {
            Some(DownloadPriority::Critical)
        } else {
            None
        }
    }
}

/// Digest algorithm of an expected checksum.
#[derive(Clone, Copy, Debug, PartialEq, Eq, Structural)]
pub enum ChecksumAlgorithm {
    Md5,
    Sha256,
}

/// The checksum that a finished file must have.
#[derive(Debug)]
pub struct ExpectedChecksum {
    pub algorithm: ChecksumAlgorithm,
    /// The digest in hexadecimal, as it was given.
    pub value: String,
}

/// The checksum that a text of the form `md5:…` or `sha256:…` states: the
/// algorithm before the first colon, whatever the case of its letters, and
/// the digest after it.
pub open spec fn spec_parse_checksum(s: Seq<char>) -> Option<(ChecksumAlgorithm, Seq<char>)> {
    match spec_find(s, seq![':']) {
        Some(at) => {
            let name = s.take(at);
            let value = s.skip(at + 1);
            if eq_ignoring_ascii_case(name, "md5"@) {
                Some((ChecksumAlgorithm::Md5, value))
            } else if eq_ignoring_ascii_case(name, "sha256"@) {
                Some((ChecksumAlgorithm::Sha256, value))
            } else {
                None
            }
        },
        None => None,
    }
}

impl ExpectedChecksum {
    pub open spec fn spec_view(&self) -> (ChecksumAlgorithm, Seq<char>) {
        (self.algorithm, self.value@)
    }

    /// Reads `md5:<hex>` or `sha256:<hex>`.
    pub fn parse(s: &str) -> (r: Option<ExpectedChecksum>)
        ensures
            match r {
                Some(c) => spec_parse_checksum(s@) == Some(c.spec_view()),
                None => spec_parse_checksum(s@) is None,
            },
    {
        let text = chars_of(s);
        let colon: Vec<char> = vec![':'];
        assert(colon@ == seq![':']);
        match find(&text, &colon) {
            Some(at) => {
                assert(crate::text::occurs_at(text@, colon@, at as int));
                assert(colon@.len() == 1);
                assert(at + 1 <= text.len());
                let name = slice(&text, 0, at);
                let value = slice(&text, at + 1, text.len());
                assert(name@ == text@.take(at as int));
                assert(value@ == text@.skip(at + 1));
                if eq_ignore_ascii_case(&name, &chars_of("md5")) {
                    Some(
                        ExpectedChecksum {
                            algorithm: ChecksumAlgorithm::Md5,
                            value: string_of(&value),
                        },
                    )
                } else if eq_ignore_ascii_case(&name, &chars_of("sha256")) {
                    Some(
                        ExpectedChecksum {
                            algorithm: ChecksumAlgorithm::Sha256,
                            value: string_of(&value),
                        },
                    )
                } else {
                    None
                }
            },
            None => None,
        }
    }
}

impl Clone for ExpectedChecksum {
    fn clone(&self) -> (r: Self)
        ensures
            r == *self,
    {
        ExpectedChecksum { algorithm: self.algorithm, value: self.value.clone() }
    }
}

/// Copy of a list of indices.
pub fn clone_indices(v: &Vec<usize>) -> (r: Vec<usize>)
    ensures
        r@ == v@,
{
    let mut r: Vec<usize> = Vec::new();
    let mut i: usize = 0;
    while i < v.len()
        invariant
            i <= v.len(),
            r@ == v@.take(i as int),
        decreases v.len() - i,
    {
        r.push(v[i]);
        i += 1;
    }
    assert(v@.take(v.len() as int) == v@);
    r
}

/// What the caller asks for one download.
#[derive(Debug)]
pub struct DownloadOptions {
    pub priority: DownloadPriority,
    /// Directory to save into; the configured one if absent.
    pub save_dir: Option<String>,
    /// Name of the file; derived from the URL if absent.
    pub filename: Option<String>,
    pub user_agent: Option<String>,
    pub referer: Option<String>,
    /// Extra request headers, as name and value.
    pub headers: Vec<(String, String)>,
    pub max_connections: Option<usize>,
    /// Limit in bytes a second.
    pub max_download_speed: Option<u64>,
    /// Limit in bytes a second.
    pub max_upload_speed: Option<u64>,
    /// Seeding cutoff in thousandths of the downloaded size.
    pub seed_ratio_permille: Option<u64>,
    /// Indices of the files of a torrent to download.
    pub selected_files: Option<Vec<usize>>,
    pub checksum: Option<ExpectedChecksum>,
    /// Other places the same file can be had from.
    pub mirrors: Vec<String>,
    /// Whether the pieces of a torrent are fetched in order.
    pub sequential: Option<bool>,
}

pub struct DownloadOptionsView {
    pub priority: DownloadPriority,
    pub save_dir: Option<Seq<char>>,
    pub filename: Option<Seq<char>>,
    pub user_agent: Option<Seq<char>>,
    pub referer: Option<Seq<char>>,
    pub headers: Seq<(Seq<char>, Seq<char>)>,
    pub max_connections: Option<usize>,
    pub max_download_speed: Option<u64>,
    pub max_upload_speed: Option<u64>,
    pub seed_ratio_permille: Option<u64>,
    pub selected_files: Option<Seq<usize>>,
    pub checksum: Option<(ChecksumAlgorithm, Seq<char>)>,
    pub mirrors: Seq<Seq<char>>,
    pub sequential: Option<bool>,
}

impl View for DownloadOptions {
    type V = DownloadOptionsView;

    open spec fn view(&self) -> DownloadOptionsView {
        DownloadOptionsView {
            priority: self.priority,
            save_dir: opt_view(self.save_dir),
            filename: opt_view(self.filename),
            user_agent: opt_view(self.user_agent),
            referer: opt_view(self.referer),
            headers: pairs_view(self.headers@),
            max_connections: self.max_connections,
            max_download_speed: self.max_download_speed,
            max_upload_speed: self.max_upload_speed,
            seed_ratio_permille: self.seed_ratio_permille,
            selected_files: match self.selected_files {
                Some(v) => Some(v@),
                None => None,
            },
            checksum: match self.checksum {
                Some(c) => Some(c.spec_view()),
                None => None,
            },
            mirrors: strings_view(self.mirrors@),
            sequential: self.sequential,
        }
    }
}

impl DownloadOptionsView {
    pub open spec fn spec_default() -> DownloadOptionsView {
        DownloadOptionsView {
            priority: DownloadPriority::Normal,
            save_dir: None,
            filename: None,
            user_agent: None,
            referer: None,
            headers: Seq::empty(),
            max_connections: None,
            max_download_speed: None,
            max_upload_speed: None,
            seed_ratio_permille: None,
            selected_files: None,
            checksum: None,
            mirrors: Seq::empty(),
            sequential: None,
        }
    }
}

impl Default for DownloadOptions {
    fn default() -> (o: DownloadOptions)
        ensures
            o@ == DownloadOptionsView::spec_default(),
    {
        let o = DownloadOptions {
            priority: DownloadPriority::Normal,
            save_dir: None,
            filename: None,
            user_agent: None,
            referer: None,
            headers: Vec::new(),
            max_connections: None,
            max_download_speed: None,
            max_upload_speed: None,
            seed_ratio_permille: None,
            selected_files: None,
            checksum: None,
            mirrors: Vec::new(),
            sequential: None,
        };
        assert(pairs_view(o.headers@) =~= Seq::empty());
        assert(strings_view(o.mirrors@) =~= Seq::empty());
        o
    }
}

impl Clone for DownloadOptions {
    fn clone(&self) -> (r: Self)
        ensures
            r@ == self@,
    {
        DownloadOptions {
            priority: self.priority,
            save_dir: clone_opt(&self.save_dir),
            filename: clone_opt(&self.filename),
            user_agent: clone_opt(&self.user_agent),
            referer: clone_opt(&self.referer),
            headers: clone_pairs(&self.headers),
            max_connections: self.max_connections,
            max_download_speed: self.max_download_speed,
            max_upload_speed: self.max_upload_speed,
            seed_ratio_permille: self.seed_ratio_permille,
            selected_files: match &self.selected_files {
                Some(v) => Some(clone_indices(v)),
                None => None,
            },
            checksum: match &self.checksum {
                Some(c) => Some(c.clone()),
                None => None,
            },
            mirrors: clone_strings(&self.mirrors),
            sequential: self.sequential,
        }
    }
}

} // verus!
