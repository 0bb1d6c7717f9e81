//! Torrent files: bencoded dictionaries of integers (`i42e`), byte strings
//! (`4:spam`), lists (`l…e`) and dictionaries (`d…e`). The file is read in
//! place: every value is known by the position at which it begins.

use crate::error::{EngineError, EngineErrorView};
use crate::text::{chars_of, join2, owned};
use crate::torrent::bitfield::max_bits;
use crate::torrent::metainfo::{files_total, FileInfo, Info, Metainfo, Sha1Hash};
use crate::torrent::piece::{sha1_digest, sha1_of};
use crate::types::{opt_view, strings_view};
use vstd::prelude::*;

verus! {

/// How deep lists and dictionaries may be nested.
pub const MAX_DEPTH: usize = 64;

// ---------------------------------------------------------------------------
// Numbers, strings and integers
// ---------------------------------------------------------------------------

pub open spec fn is_digit_byte(b: u8) -> bool {
    0x30 <= b <= 0x39
}

/// The first position from `p` on that holds no digit.
pub open spec fn digits_end(d: Seq<u8>, p: int) -> int
    decreases d.len() - p,
{
    if 0 <= p < d.len() && is_digit_byte(d[p]) {
        digits_end(d, p + 1)
    } else {
        p
    }
}

/// The number that the digits from `p` to before `q` stand for.
pub open spec fn digits_number(d: Seq<u8>, p: int, q: int) -> nat
    decreases q - p,
{
    if q <= p || q > d.len() || p < 0 {
        0
    } else {
        digits_number(d, p, q - 1) * 10 + (d[q - 1] - 0x30) as nat
    }
}

/// Where the bytes of the byte string at `p` begin and end: the string is
/// its length in decimal, a colon and that many bytes.
pub open spec fn string_span(d: Seq<u8>, p: int) -> Option<(int, int)> {
    let q = digits_end(d, p);
    let n = digits_number(d, p, q);
    if 0 <= p < q && q < d.len() && d[q] == 0x3a && q + 1 + n <= d.len() {
        Some((q + 1, q + 1 + n))
    } else {
        None
    }
}

/// The value of the integer at `p` and where it ends: the integer is an
/// `i`, an optional minus sign, decimal digits and an `e`, and fits 64
/// bits.
pub open spec fn int_span(d: Seq<u8>, p: int) -> Option<(int, int)> {
    if 0 <= p < d.len() && d[p] == 0x69 {
        let negative = p + 1 < d.len() && d[p + 1] == 0x2d;
        let s = if negative {
            p + 2
        } else {
            p + 1
        };
        let q = digits_end(d, s);
        let n = digits_number(d, s, q);
        if s < q && q < d.len() && d[q] == 0x65 && n <= (if negative {
            0x8000_0000_0000_0000int
        } else {
            0x7fff_ffff_ffff_ffffint
        }) {
            Some(
                (
                    if negative {
                        -(n as int)
                    } else {
                        n as int
                    },
                    q + 1,
                ),
            )
        } else {
            None
        }
    } else {
        None
    }
}

/// Where there are digits from `p` to before `k`, the digits end where
/// they end from `k` on.
pub proof fn lemma_digits_end_from(d: Seq<u8>, p: int, k: int)
    requires
        0 <= p <= k <= d.len(),
        forall|j: int| p <= j < k ==> is_digit_byte(#[trigger] d[j]),
    ensures
        digits_end(d, p) == digits_end(d, k),
        digits_end(d, k) >= k,
        digits_end(d, k) <= d.len(),
    decreases k - p,
{
    lemma_digits_end_bounds(d, k);
    if p < k {
        lemma_digits_end_from(d, p + 1, k);
    }
}

pub proof fn lemma_digits_end_bounds(d: Seq<u8>, k: int)
    requires
        0 <= k <= d.len(),
    ensures
        k <= digits_end(d, k) <= d.len(),
    decreases d.len() - k,
{
    if k < d.len() && is_digit_byte(d[k]) {
        lemma_digits_end_bounds(d, k + 1);
    }
}

/// Reads the digits from `p` on: where they end, and their number if it is
/// at most `cap`.
fn scan_digits(d: &Vec<u8>, p: usize, cap: u64) -> (r: (usize, Option<u64>))
    requires
        p <= d.len(),
    ensures
        r.0 == digits_end(d@, p as int),
        p <= r.0 <= d.len(),
        r.1 == if digits_number(d@, p as int, r.0 as int) <= cap {
            Some(digits_number(d@, p as int, r.0 as int) as u64)
        } else {
            None
        },
{
    let mut k: usize = p;
    let mut acc: Option<u64> = Some(0);
    while k < d.len() && d[k] >= 0x30 && d[k] <= 0x39
        invariant
            p <= k <= d.len(),
            forall|j: int| p <= j < k ==> is_digit_byte(#[trigger] d@[j]),
            acc == if digits_number(d@, p as int, k as int) <= cap {
                Some(digits_number(d@, p as int, k as int) as u64)
            } else {
                None
            },
        decreases d.len() - k,
    {
        let digit: u64 = (d[k] - 0x30) as u64;
        acc = match acc {
            Some(n) => {
                if digit > cap || n > (cap - digit) / 10 {
                    None
                } else {
                    Some(n * 10 + digit)
                }
            },
            None => None,
        };
        k += 1;
    }
    proof {
        lemma_digits_end_from(d@, p as int, k as int);
    }
    (k, acc)
}

/// Where the bytes of the byte string at `p` begin and end.
pub fn string_at(d: &Vec<u8>, p: usize) -> (r: Option<(usize, usize)>)
    ensures
        match r {
            Some(span) => string_span(d@, p as int) == Some((span.0 as int, span.1 as int))
                && p < span.0 <= span.1 <= d.len(),
            None => string_span(d@, p as int) is None,
        },
{
    if p >= d.len() {
        proof {
            lemma_digits_end_stops(d@, p as int);
        }
        return None;
    }
    let (q, number) = scan_digits(d, p, d.len() as u64);
    if q == p || q >= d.len() || d[q] != 0x3a {
        return None;
    }
    match number {
        Some(n) => {
            if n > (d.len() - q - 1) as u64 {
                None
            } else {
                Some((q + 1, q + 1 + n as usize))
            }
        },
        None => None,
    }
}

/// Past the end there are no digits.
pub proof fn lemma_digits_end_stops(d: Seq<u8>, p: int)
    requires
        p >= d.len(),
    ensures
        digits_end(d, p) == p,
{
}

/// The value of the integer at `p` and where it ends.
pub fn int_at(d: &Vec<u8>, p: usize) -> (r: Option<(i64, usize)>)
    ensures
        match r {
            Some(v) => int_span(d@, p as int) == Some((v.0 as int, v.1 as int)) && p < v.1
                <= d.len(),
            None => int_span(d@, p as int) is None,
        },
{
    if p >= d.len() || d[p] != 0x69 {
        return None;
    }
    let negative = p + 1 < d.len() && d[p + 1] == 0x2d;
    let s: usize = if negative {
        p + 2
    } else {
        p + 1
    };
    let cap: u64 = if negative {
        0x8000_0000_0000_0000
    } else {
        0x7fff_ffff_ffff_ffff
    };
    let (q, number) = scan_digits(d, s, cap);
    if q == s || q >= d.len() || d[q] != 0x65 {
        return None;
    }
    match number {
        Some(n) => {
            let value: i64 = if negative {
                if n == 0x8000_0000_0000_0000 {
                    i64::MIN
                } else {
                    -(n as i64)
                }
            } else {
                n as i64
            };
            Some((value, q + 1))
        },
        None => None,
    }
}

// ---------------------------------------------------------------------------
// Values
// ---------------------------------------------------------------------------

/// Where the value at `p` ends, if there is a value of at most `depth`
/// levels of lists and dictionaries.
pub open spec fn value_end(d: Seq<u8>, p: int, depth: nat) -> Option<int>
    decreases depth, d.len() - p, 0int,
{
    if !(0 <= p < d.len()) {
        None
    } else if d[p] == 0x69 {
        match int_span(d, p) {
            Some(v) => Some(v.1),
            None => None,
        }
    } else if d[p] == 0x6c {
        if depth == 0 {
            None
        } else {
            items_end(d, p + 1, (depth - 1) as nat)
        }
    } else if d[p] == 0x64 {
        if depth == 0 {
            None
        } else {
            entries_end(d, p + 1, (depth - 1) as nat)
        }
    } else {
        match string_span(d, p) {
            Some(span) => Some(span.1),
            None => None,
        }
    }
}

/// Where the list ends whose items begin at `p`.
pub open spec fn items_end(d: Seq<u8>, p: int, depth: nat) -> Option<int>
    decreases depth, d.len() - p, 1int,
{
    if !(0 <= p < d.len()) {
        None
    } else if d[p] == 0x65 {
        Some(p + 1)
    } else {
        match value_end(d, p, depth) {
            Some(q) => if p < q <= d.len() {
                items_end(d, q, depth)
            } else {
                None
            },
            None => None,
        }
    }
}

/// Where the dictionary ends whose entries begin at `p`: every entry is a
/// byte string, the key, and a value.
pub open spec fn entries_end(d: Seq<u8>, p: int, depth: nat) -> Option<int>
    decreases depth, d.len() - p, 1int,
{
    if !(0 <= p < d.len()) {
        None
    } else if d[p] == 0x65 {
        Some(p + 1)
    } else {
        match string_span(d, p) {
            Some(key) => if p < key.1 <= d.len() {
                match value_end(d, key.1, depth) {
                    Some(q) => if key.1 < q <= d.len() {
                        entries_end(d, q, depth)
                    } else {
                        None
                    },
                    None => None,
                }
            } else {
                None
            },
            None => None,
        }
    }
}

/// Where the list or dictionary ends whose members begin at `p`.
pub open spec fn members_end(d: Seq<u8>, p: int, depth: nat, keyed: bool) -> Option<int> {
    if keyed {
        entries_end(d, p, depth)
    } else {
        items_end(d, p, depth)
    }
}

/// Where the value at `p` ends.
pub fn value_end_at(d: &Vec<u8>, p: usize, depth: usize) -> (r: Option<usize>)
    ensures
        match r {
            Some(e) => value_end(d@, p as int, depth as nat) == Some(e as int) && p < e
                <= d.len(),
            None => value_end(d@, p as int, depth as nat) is None,
        },
    decreases depth,
{
    if p >= d.len() {
        return None;
    }
    let c = d[p];
    if c == 0x69 {
        match int_at(d, p) {
            Some(v) => Some(v.1),
            None => None,
        }
    } else if c == 0x6c || c == 0x64 {
        if depth == 0 {
            return None;
        }
        let keyed = c == 0x64;
        let mut q: usize = p + 1;
        loop
            invariant
                p < q <= d.len(),
                depth > 0,
                keyed == (d@[p as int] == 0x64),
                d@[p as int] == 0x6c || d@[p as int] == 0x64,
                members_end(d@, p as int + 1, (depth - 1) as nat, keyed) == members_end(
                    d@,
                    q as int,
                    (depth - 1) as nat,
                    keyed,
                ),
            decreases d.len() - q,
        {
            if q >= d.len() {
                return None;
            }
            if d[q] == 0x65 {
                return Some(q + 1);
            }
            let start: usize = if keyed {
                match string_at(d, q) {
                    Some(key) => key.1,
                    None => {
                        return None;
                    },
                }
            } else {
                q
            };
            match value_end_at(d, start, depth - 1) {
                Some(e) => {
                    q = e;
                },
                None => {
                    return None;
                },
            }
        }
    } else {
        match string_at(d, p) {
            Some(span) => Some(span.1),
            None => None,
        }
    }
}

// ---------------------------------------------------------------------------
// Dictionaries and lists
// ---------------------------------------------------------------------------

/// The bytes of a text of ASCII characters.
pub open spec fn ascii_bytes(key: Seq<char>) -> Seq<u8> {
    key.map_values(|c: char| (c as u32 % 256) as u8)
}

/// The place of the value that the first entry with the key `key` has,
/// among the entries that begin at `p`.
pub open spec fn entry_place(d: Seq<u8>, p: int, key: Seq<u8>) -> Option<int>
    decreases d.len() - p,
{
    if !(0 <= p < d.len()) || d[p] == 0x65 {
        None
    } else {
        match string_span(d, p) {
            Some(k) => if p < k.1 <= d.len() {
                if d.subrange(k.0, k.1) == key {
                    Some(k.1)
                } else {
                    match value_end(d, k.1, MAX_DEPTH as nat) {
                        Some(q) => if k.1 < q <= d.len() {
                            entry_place(d, q, key)
                        } else {
                            None
                        },
                        None => None,
                    }
                }
            } else {
                None
            },
            None => None,
        }
    }
}

/// The place of the value that the dictionary at `p` has for `key`.
pub open spec fn dict_get(d: Seq<u8>, p: int, key: Seq<char>) -> Option<int> {
    if 0 <= p < d.len() && d[p] == 0x64 {
        entry_place(d, p + 1, ascii_bytes(key))
    } else {
        None
    }
}

fn key_matches(d: &Vec<u8>, from: usize, to: usize, key: &Vec<char>) -> (r: bool)
    requires
        from <= to <= d.len(),
    ensures
        r == (d@.subrange(from as int, to as int) == ascii_bytes(key@)),
{
    if to - from != key.len() {
        assert(d@.subrange(from as int, to as int).len() != ascii_bytes(key@).len());
        return false;
    }
    let mut j: usize = 0;
    while j < key.len()
        invariant
            j <= key.len(),
            from <= to <= d.len(),
            to - from == key.len(),
            forall|i: int| 0 <= i < j ==> d@[from + i] == (key@[i] as u32 % 256) as u8,
        decreases key.len() - j,
    {
        if d[from + j] != (key[j] as u32 % 256) as u8 {
            assert(d@.subrange(from as int, to as int)[j as int] != ascii_bytes(key@)[j as int]);
            return false;
        }
        j += 1;
    }
    assert(d@.subrange(from as int, to as int) =~= ascii_bytes(key@));
    true
}

/// The place of the value that the dictionary at `p` has for `key`.
pub fn dict_get_at(d: &Vec<u8>, p: usize, key: &str) -> (r: Option<usize>)
    ensures
        match r {
            Some(v) => dict_get(d@, p as int, key@) == Some(v as int) && p < v <= d.len(),
            None => dict_get(d@, p as int, key@) is None,
        },
{
    if p >= d.len() || d[p] != 0x64 {
        return None;
    }
    let wanted = chars_of(key);
    let mut q: usize = p + 1;
    loop
        invariant
            p < q <= d.len(),
            d@[p as int] == 0x64,
            wanted@ == key@,
            entry_place(d@, p as int + 1, ascii_bytes(key@)) == entry_place(
                d@,
                q as int,
                ascii_bytes(key@),
            ),
        decreases d.len() - q,
    {
        if q >= d.len() || d[q] == 0x65 {
            return None;
        }
        let span = match string_at(d, q) {
            Some(span) => span,
            None => {
                return None;
            },
        };
        if key_matches(d, span.0, span.1, &wanted) {
            assert(entry_place(d@, q as int, ascii_bytes(key@)) == Some(span.1 as int));
            return Some(span.1);
        }
        match value_end_at(d, span.1, MAX_DEPTH) {
            Some(e) => {
                q = e;
            },
            None => {
                return None;
            },
        }
    }
}

/// The places of the items that begin at `p`, up to the end of the list or
/// to the first item that is no value.
pub open spec fn item_places(d: Seq<u8>, p: int) -> Seq<int>
    decreases d.len() - p,
{
    if !(0 <= p < d.len()) || d[p] == 0x65 {
        Seq::empty()
    } else {
        match value_end(d, p, MAX_DEPTH as nat) {
            Some(q) => if p < q <= d.len() {
                seq![p] + item_places(d, q)
            } else {
                Seq::empty()
            },
            None => Seq::empty(),
        }
    }
}

/// The places of the items of the list at `p`.
pub open spec fn list_items(d: Seq<u8>, p: int) -> Option<Seq<int>> {
    if 0 <= p < d.len() && d[p] == 0x6c {
        Some(item_places(d, p + 1))
    } else {
        None
    }
}

/// Places as numbers.
pub open spec fn places(v: Seq<usize>) -> Seq<int> {
    v.map_values(|x: usize| x as int)
}

/// The places of the items of the list at `p`.
pub fn list_items_at(d: &Vec<u8>, p: usize) -> (r: Option<Vec<usize>>)
    ensures
        match r {
            Some(v) => list_items(d@, p as int) == Some(places(v@)),
            None => list_items(d@, p as int) is None,
        },
{
    if p >= d.len() || d[p] != 0x6c {
        return None;
    }
    let mut out: Vec<usize> = Vec::new();
    let mut q: usize = p + 1;
    assert(places(out@) =~= Seq::empty());
    assert(Seq::<int>::empty() + item_places(d@, q as int) == item_places(d@, q as int));
    loop
        invariant
            p < q <= d.len(),
            d@[p as int] == 0x6c,
            item_places(d@, p as int + 1) == places(out@) + item_places(d@, q as int),
        decreases d.len() - q,
    {
        if q >= d.len() || d[q] == 0x65 {
            assert(item_places(d@, q as int) =~= Seq::empty());
            assert(places(out@) + Seq::<int>::empty() == places(out@));
            return Some(out);
        }
        match value_end_at(d, q, MAX_DEPTH) {
            Some(e) => {
                let ghost before = places(out@);
                out.push(q);
                assert(places(out@) =~= before.push(q as int));
                assert(before + (seq![q as int] + item_places(d@, e as int)) =~= before.push(
                    q as int,
                ) + item_places(d@, e as int));
                q = e;
            },
            None => {
                assert(item_places(d@, q as int) =~= Seq::empty());
                assert(places(out@) + Seq::<int>::empty() == places(out@));
                return Some(out);
            },
        }
    }
}

// ---------------------------------------------------------------------------
// Texts and numbers of a dictionary
// ---------------------------------------------------------------------------

/// The text that a row of bytes is the UTF-8 form of, if it is one of any.
pub open spec fn utf8_of(bytes: Seq<u8>) -> Option<Seq<char>> {
    if vstd::utf8::valid_utf8(bytes) {
        Some(vstd::utf8::decode_utf8(bytes))
    } else {
        None
    }
}

/// `String::from_utf8`: the bytes read as UTF-8, or nothing where they are
/// no valid UTF-8.
#[verifier::external_body]
fn utf8_text(bytes: Vec<u8>) -> (r: Option<String>)
    ensures
        opt_view(r) == utf8_of(bytes@),
{
    String::from_utf8(bytes).ok()
}

/// The bytes from `from` to before `to`.
pub fn bytes_between(d: &Vec<u8>, from: usize, to: usize) -> (r: Vec<u8>)
    requires
        from <= to <= d.len(),
    ensures
        r@ == d@.subrange(from as int, to as int),
{
    let mut out: Vec<u8> = Vec::new();
    let mut i: usize = from;
    while i < to
        invariant
            from <= i <= to <= d.len(),
            out@ == d@.subrange(from as int, i as int),
        decreases to - i,
    {
        out.push(d[i]);
        assert(out@ =~= d@.subrange(from as int, i + 1));
        i += 1;
    }
    out
}

/// The text that the byte string at `p` holds, if there is a byte string
/// and its bytes are UTF-8.
pub open spec fn text_span(d: Seq<u8>, p: int) -> Option<Seq<char>> {
    match string_span(d, p) {
        Some(k) => utf8_of(d.subrange(k.0, k.1)),
        None => None,
    }
}

/// The text that the byte string at `p` holds.
pub fn text_at(d: &Vec<u8>, p: usize) -> (r: Option<String>)
    ensures
        opt_view(r) == text_span(d@, p as int),
{
    match string_at(d, p) {
        Some(span) => utf8_text(bytes_between(d, span.0, span.1)),
        None => None,
    }
}

/// The text that the dictionary at `p` has for `key`.
pub open spec fn dict_text(d: Seq<u8>, p: int, key: Seq<char>) -> Option<Seq<char>> {
    match dict_get(d, p, key) {
        Some(v) => text_span(d, v),
        None => None,
    }
}

/// The text that the dictionary at `p` has for `key`.
pub fn text_of(d: &Vec<u8>, p: usize, key: &str) -> (r: Option<String>)
    ensures
        opt_view(r) == dict_text(d@, p as int, key@),
{
    match dict_get_at(d, p, key) {
        Some(v) => text_at(d, v),
        None => None,
    }
}

/// The integer that the dictionary at `p` has for `key`.
pub open spec fn dict_int(d: Seq<u8>, p: int, key: Seq<char>) -> Option<int> {
    match dict_get(d, p, key) {
        Some(v) => match int_span(d, v) {
            Some(x) => Some(x.0),
            None => None,
        },
        None => None,
    }
}

/// The integer that the dictionary at `p` has for `key`.
pub fn int_of(d: &Vec<u8>, p: usize, key: &str) -> (r: Option<i64>)
    ensures
        match r {
            Some(v) => dict_int(d@, p as int, key@) == Some(v as int),
            None => dict_int(d@, p as int, key@) is None,
        },
{
    match dict_get_at(d, p, key) {
        Some(v) => match int_at(d, v) {
            Some(x) => Some(x.0),
            None => None,
        },
        None => None,
    }
}

/// The count that the dictionary at `p` has for `key`: an integer that is
/// not negative.
pub open spec fn dict_count(d: Seq<u8>, p: int, key: Seq<char>) -> Option<u64> {
    match dict_int(d, p, key) {
        Some(v) => if 0 <= v <= u64::MAX {
            Some(v as u64)
        } else {
            None
        },
        None => None,
    }
}

/// The count that the dictionary at `p` has for `key`.
pub fn count_of(d: &Vec<u8>, p: usize, key: &str) -> (r: Option<u64>)
    ensures
        r == dict_count(d@, p as int, key@),
{
    match int_of(d, p, key) {
        Some(v) => if v >= 0 {
            Some(v as u64)
        } else {
            None
        },
        None => None,
    }
}

/// The texts at the places, if there is a text at each.
pub open spec fn texts_at(d: Seq<u8>, at: Seq<int>) -> Option<Seq<Seq<char>>>
    decreases at.len(),
{
    if at.len() == 0 {
        Some(Seq::empty())
    } else {
        match (texts_at(d, at.drop_last()), text_span(d, at.last())) {
            (Some(rest), Some(text)) => Some(rest.push(text)),
            _ => None,
        }
    }
}

/// Where the first places have no texts, none of the longer rows has.
pub proof fn lemma_texts_prefix(d: Seq<u8>, at: Seq<int>, k: int)
    requires
        0 <= k <= at.len(),
        texts_at(d, at.take(k)) is None,
    ensures
        texts_at(d, at) is None,
    decreases at.len() - k,
{
    if k == at.len() {
        assert(at.take(k) == at);
    } else {
        assert(at.take(k + 1).drop_last() == at.take(k));
        lemma_texts_prefix(d, at, k + 1);
    }
}

/// The texts at the places.
pub fn read_texts(d: &Vec<u8>, at: &Vec<usize>) -> (r: Option<Vec<String>>)
    ensures
        match r {
            Some(v) => texts_at(d@, places(at@)) == Some(strings_view(v@)),
            None => texts_at(d@, places(at@)) is None,
        },
{
    let mut out: Vec<String> = Vec::new();
    let mut i: usize = 0;
    let ghost all = places(at@);
    assert(all.take(0) =~= Seq::empty());
    assert(strings_view(out@) =~= Seq::empty());
    while i < at.len()
        invariant
            i <= at.len(),
            all == places(at@),
            texts_at(d@, all.take(i as int)) == Some(strings_view(out@)),
        decreases at.len() - i,
    {
        proof {
            assert(all.take(i + 1).drop_last() == all.take(i as int));
            assert(all.take(i + 1).last() == at@[i as int] as int);
        }
        match text_at(d, at[i]) {
            Some(text) => {
                let ghost before = strings_view(out@);
                out.push(text);
                assert(strings_view(out@) =~= before.push(text@));
            },
            None => {
                proof {
                    lemma_texts_prefix(d@, all, i + 1);
                }
                return None;
            },
        }
        i += 1;
    }
    assert(all.take(at.len() as int) == all);
    Some(out)
}

// ---------------------------------------------------------------------------
// Piece hashes
// ---------------------------------------------------------------------------

/// The piece hashes that the dictionary at `info` states: the bytes of its
/// `pieces`, twenty for each piece.
pub open spec fn dict_pieces(d: Seq<u8>, info: int) -> Option<Seq<Seq<u8>>> {
    match dict_get(d, info, "pieces"@) {
        Some(v) => match string_span(d, v) {
            Some(k) => if (k.1 - k.0) % 20 == 0 {
                Some(
                    Seq::new(
                        ((k.1 - k.0) / 20) as nat,
                        |i: int| d.subrange(k.0 + 20 * i, k.0 + 20 * i + 20),
                    ),
                )
            } else {
                None
            },
            None => None,
        },
        None => None,
    }
}

/// The bytes of each hash.
pub open spec fn hashes_view(v: Seq<Sha1Hash>) -> Seq<Seq<u8>> {
    v.map_values(|h: Sha1Hash| h@)
}

fn hash_at(d: &Vec<u8>, from: usize) -> (r: Sha1Hash)
    requires
        from + 20 <= d.len(),
    ensures
        r@ == d@.subrange(from as int, from + 20),
{
    let mut hash: Sha1Hash = [0u8; 20];
    let mut j: usize = 0;
    while j < 20
        invariant
            j <= 20,
            from + 20 <= d.len(),
            hash@.len() == 20,
            forall|i: int| 0 <= i < j ==> hash@[i] == d@[from + i],
        decreases 20 - j,
    {
        hash[j] = d[from + j];
        j += 1;
    }
    assert(hash@ =~= d@.subrange(from as int, from + 20));
    hash
}

/// The piece hashes that the dictionary at `info` states.
pub fn pieces_of(d: &Vec<u8>, info: usize) -> (r: Option<Vec<Sha1Hash>>)
    ensures
        match r {
            Some(v) => dict_pieces(d@, info as int) == Some(hashes_view(v@)),
            None => dict_pieces(d@, info as int) is None,
        },
{
    let place = match dict_get_at(d, info, "pieces") {
        Some(v) => v,
        None => {
            return None;
        },
    };
    let span = match string_at(d, place) {
        Some(span) => span,
        None => {
            return None;
        },
    };
    let length = span.1 - span.0;
    if length % 20 != 0 {
        return None;
    }
    let count = length / 20;
    let mut out: Vec<Sha1Hash> = Vec::new();
    let mut i: usize = 0;
    while i < count
        invariant
            i <= count,
            span.0 <= span.1 <= d.len(),
            span.1 - span.0 == 20 * count,
            out@.len() == i,
            forall|k: int|
                0 <= k < i ==> (#[trigger] out@[k])@ == d@.subrange(
                    span.0 + 20 * k,
                    span.0 + 20 * k + 20,
                ),
        decreases count - i,
    {
        out.push(hash_at(d, span.0 + 20 * i));
        i += 1;
    }
    assert(hashes_view(out@) =~= dict_pieces(d@, info as int).unwrap());
    Some(out)
}

// ---------------------------------------------------------------------------
// Files
// ---------------------------------------------------------------------------

/// The file that the dictionary at `p` states: its path, the components
/// joined by `/`, and its length.
pub open spec fn file_entry(d: Seq<u8>, p: int) -> Option<(Seq<char>, u64)> {
    match (dict_count(d, p, "length"@), dict_get(d, p, "path"@)) {
        (Some(length), Some(v)) => match list_items(d, v) {
            Some(at) => match texts_at(d, at) {
                Some(parts) => if parts.len() > 0 {
                    Some((crate::text::joined(parts, seq!['/']), length))
                } else {
                    None
                },
                None => None,
            },
            None => None,
        },
        _ => None,
    }
}

/// The files that the dictionaries at the places state, if each states
/// one.
pub open spec fn file_entries(d: Seq<u8>, at: Seq<int>) -> Option<Seq<(Seq<char>, u64)>>
    decreases at.len(),
{
    if at.len() == 0 {
        Some(Seq::empty())
    } else {
        match (file_entries(d, at.drop_last()), file_entry(d, at.last())) {
            (Some(rest), Some(file)) => Some(rest.push(file)),
            _ => None,
        }
    }
}

/// Where the first places state no files, none of the longer rows does.
pub proof fn lemma_files_prefix(d: Seq<u8>, at: Seq<int>, k: int)
    requires
        0 <= k <= at.len(),
        file_entries(d, at.take(k)) is None,
    ensures
        file_entries(d, at) is None,
    decreases at.len() - k,
{
    if k == at.len() {
        assert(at.take(k) == at);
    } else {
        assert(at.take(k + 1).drop_last() == at.take(k));
        lemma_files_prefix(d, at, k + 1);
    }
}

/// The files of the torrent that the dictionary at `info` states, and
/// whether it is a torrent of a single file: the files of its list
/// `files`, or without one the file named `name` of its `length`.
pub open spec fn stated_files(d: Seq<u8>, info: int, name: Seq<char>) -> Option<
    (Seq<(Seq<char>, u64)>, bool),
> {
    match dict_get(d, info, "files"@) {
        Some(v) => match list_items(d, v) {
            Some(at) => match file_entries(d, at) {
                Some(files) => Some((files, false)),
                None => None,
            },
            None => None,
        },
        None => match dict_count(d, info, "length"@) {
            Some(length) => Some((seq![(name, length)], true)),
            None => None,
        },
    }
}

/// The paths and lengths of a row of files.
pub open spec fn entries_view(v: Seq<(String, u64)>) -> Seq<(Seq<char>, u64)> {
    v.map_values(|e: (String, u64)| (e.0@, e.1))
}

/// Sum of the lengths of a row of files.
pub open spec fn entries_total(entries: Seq<(Seq<char>, u64)>) -> int
    decreases entries.len(),
{
    if entries.len() == 0 {
        0
    } else {
        entries_total(entries.drop_last()) + entries.last().1
    }
}

/// The files are those of the entries, each beginning where the ones
/// before it end.
pub open spec fn laid_out(entries: Seq<(Seq<char>, u64)>, files: Seq<FileInfo>) -> bool {
    &&& files.len() == entries.len()
    &&& forall|i: int|
        0 <= i < files.len() ==> {
            &&& (#[trigger] files[i]).path@ == entries[i].0
            &&& files[i].length == entries[i].1
            &&& files[i].offset == entries_total(entries.take(i))
        }
}

fn read_file_entry(d: &Vec<u8>, p: usize) -> (r: Option<(String, u64)>)
    ensures
        match r {
            Some(e) => file_entry(d@, p as int) == Some((e.0@, e.1)),
            None => file_entry(d@, p as int) is None,
        },
{
    let length = match count_of(d, p, "length") {
        Some(n) => n,
        None => {
            return None;
        },
    };
    let place = match dict_get_at(d, p, "path") {
        Some(v) => v,
        None => {
            return None;
        },
    };
    let at = match list_items_at(d, place) {
        Some(at) => at,
        None => {
            return None;
        },
    };
    let parts = match read_texts(d, &at) {
        Some(parts) => parts,
        None => {
            return None;
        },
    };
    if parts.len() == 0 {
        return None;
    }
    Some((crate::text::join_with(&parts, '/'), length))
}

fn read_file_entries(d: &Vec<u8>, at: &Vec<usize>) -> (r: Option<Vec<(String, u64)>>)
    ensures
        match r {
            Some(v) => file_entries(d@, places(at@)) == Some(entries_view(v@)),
            None => file_entries(d@, places(at@)) is None,
        },
{
    let mut out: Vec<(String, u64)> = Vec::new();
    let mut i: usize = 0;
    let ghost all = places(at@);
    assert(all.take(0) =~= Seq::empty());
    assert(entries_view(out@) =~= Seq::empty());
    while i < at.len()
        invariant
            i <= at.len(),
            all == places(at@),
            file_entries(d@, all.take(i as int)) == Some(entries_view(out@)),
        decreases at.len() - i,
    {
        proof {
            assert(all.take(i + 1).drop_last() == all.take(i as int));
            assert(all.take(i + 1).last() == at@[i as int] as int);
        }
        match read_file_entry(d, at[i]) {
            Some(entry) => {
                let ghost before = entries_view(out@);
                let ghost added = (entry.0@, entry.1);
                out.push(entry);
                assert(entries_view(out@) =~= before.push(added));
            },
            None => {
                proof {
                    lemma_files_prefix(d@, all, i + 1);
                }
                return None;
            },
        }
        i += 1;
    }
    assert(all.take(at.len() as int) == all);
    Some(out)
}

fn read_stated_files(d: &Vec<u8>, info: usize, name: &str) -> (r: Option<
    (Vec<(String, u64)>, bool),
>)
    ensures
        match r {
            Some(f) => stated_files(d@, info as int, name@) == Some((entries_view(f.0@), f.1)),
            None => stated_files(d@, info as int, name@) is None,
        },
{
    match dict_get_at(d, info, "files") {
        Some(v) => {
            let at = match list_items_at(d, v) {
                Some(at) => at,
                None => {
                    return None;
                },
            };
            match read_file_entries(d, &at) {
                Some(files) => Some((files, false)),
                None => None,
            }
        },
        None => match count_of(d, info, "length") {
            Some(length) => {
                let mut files: Vec<(String, u64)> = Vec::new();
                files.push((owned(name), length));
                assert(entries_view(files@) =~= seq![(name@, length)]);
                Some((files, true))
            },
            None => None,
        },
    }
}

/// The sum of the first lengths is at most the sum of all.
pub proof fn lemma_entries_prefix(entries: Seq<(Seq<char>, u64)>, k: int)
    requires
        0 <= k <= entries.len(),
    ensures
        0 <= entries_total(entries.take(k)) <= entries_total(entries),
    decreases entries.len() - k,
{
    lemma_entries_nonneg(entries.take(k));
    if k == entries.len() {
        assert(entries.take(k) == entries);
    } else {
        lemma_entries_prefix(entries, k + 1);
        assert(entries.take(k + 1).drop_last() == entries.take(k));
    }
}

pub proof fn lemma_entries_nonneg(entries: Seq<(Seq<char>, u64)>)
    ensures
        entries_total(entries) >= 0,
    decreases entries.len(),
{
    if entries.len() > 0 {
        lemma_entries_nonneg(entries.drop_last());
    }
}

/// Lays the files out one after the other; nothing where their lengths
/// add up to more than 64 bits hold.
fn lay_out(entries: Vec<(String, u64)>) -> (r: Option<(Vec<FileInfo>, u64)>)
    ensures
        match r {
            Some(f) => entries_total(entries_view(entries@)) == f.1 && laid_out(
                entries_view(entries@),
                f.0@,
            ),
            None => entries_total(entries_view(entries@)) > u64::MAX,
        },
{
    let ghost all = entries_view(entries@);
    let mut files: Vec<FileInfo> = Vec::new();
    let mut offset: u64 = 0;
    let mut i: usize = 0;
    assert(all.take(0) =~= Seq::empty());
    while i < entries.len()
        invariant
            i <= entries.len(),
            all == entries_view(entries@),
            offset == entries_total(all.take(i as int)),
            files@.len() == i,
            forall|k: int|
                0 <= k < i ==> {
                    &&& (#[trigger] files@[k]).path@ == all[k].0
                    &&& files@[k].length == all[k].1
                    &&& files@[k].offset == entries_total(all.take(k))
                },
        decreases entries.len() - i,
    {
        let length = entries[i].1;
        proof {
            assert(all.take(i + 1).drop_last() == all.take(i as int));
            assert(all.take(i + 1).last() == all[i as int]);
            assert(all[i as int] == (entries@[i as int].0@, entries@[i as int].1));
            lemma_entries_prefix(all, i + 1);
        }
        if length > u64::MAX - offset {
            return None;
        }
        files.push(FileInfo { path: entries[i].0.clone(), length, offset });
        offset = offset + length;
        i += 1;
    }
    assert(all.take(entries.len() as int) == all);
    Some((files, offset))
}

// ---------------------------------------------------------------------------
// Trackers
// ---------------------------------------------------------------------------

/// The tier of trackers that the list at `p` states, if it is a list of
/// texts.
pub open spec fn tier_at(d: Seq<u8>, p: int) -> Option<Seq<Seq<char>>> {
    match list_items(d, p) {
        Some(at) => texts_at(d, at),
        None => None,
    }
}

/// The tiers that the values at the places state; a value that is no list
/// of texts is passed over.
pub open spec fn tiers_at(d: Seq<u8>, at: Seq<int>) -> Seq<Seq<Seq<char>>>
    decreases at.len(),
{
    if at.len() == 0 {
        Seq::empty()
    } else {
        match tier_at(d, at.last()) {
            Some(tier) => tiers_at(d, at.drop_last()).push(tier),
            None => tiers_at(d, at.drop_last()),
        }
    }
}

/// The tiers of trackers that the dictionary at `root` states in its
/// `announce-list`; none without such a list.
pub open spec fn stated_tiers(d: Seq<u8>, root: int) -> Seq<Seq<Seq<char>>> {
    match dict_get(d, root, "announce-list"@) {
        Some(v) => match list_items(d, v) {
            Some(at) => tiers_at(d, at),
            None => Seq::empty(),
        },
        None => Seq::empty(),
    }
}

/// The texts of each tier.
pub open spec fn tiers_view(v: Seq<Vec<String>>) -> Seq<Seq<Seq<char>>> {
    v.map_values(|t: Vec<String>| strings_view(t@))
}

fn read_tiers(d: &Vec<u8>, root: usize) -> (r: Vec<Vec<String>>)
    ensures
        tiers_view(r@) == stated_tiers(d@, root as int),
{
    let mut out: Vec<Vec<String>> = Vec::new();
    assert(tiers_view(out@) =~= Seq::empty());
    let place = match dict_get_at(d, root, "announce-list") {
        Some(v) => v,
        None => {
            return out;
        },
    };
    let at = match list_items_at(d, place) {
        Some(at) => at,
        None => {
            return out;
        },
    };
    let ghost all = places(at@);
    let mut i: usize = 0;
    assert(all.take(0) =~= Seq::empty());
    while i < at.len()
        invariant
            i <= at.len(),
            all == places(at@),
            tiers_view(out@) == tiers_at(d@, all.take(i as int)),
        decreases at.len() - i,
    {
        proof {
            assert(all.take(i + 1).drop_last() == all.take(i as int));
            assert(all.take(i + 1).last() == at@[i as int] as int);
        }
        match list_items_at(d, at[i]) {
            Some(members) => match read_texts(d, &members) {
                Some(tier) => {
                    let ghost before = tiers_view(out@);
                    let ghost added = strings_view(tier@);
                    out.push(tier);
                    assert(tiers_view(out@) =~= before.push(added));
                },
                None => {},
            },
            None => {},
        }
        i += 1;
    }
    assert(all.take(at.len() as int) == all);
    out
}

// ---------------------------------------------------------------------------
// The torrent file
// ---------------------------------------------------------------------------

/// The file is one bencoded dictionary and nothing else.
pub open spec fn is_dictionary(d: Seq<u8>) -> bool {
    d.len() > 0 && d[0] == 0x64 && value_end(d, 0, MAX_DEPTH as nat) == Some(d.len() as int)
}

/// The place of the dictionary `info` of the file, if it has one.
pub open spec fn info_place(d: Seq<u8>) -> Option<int> {
    match dict_get(d, 0, "info"@) {
        Some(v) => if 0 <= v < d.len() && d[v] == 0x64 && value_end(d, v, MAX_DEPTH as nat)
            is Some {
            Some(v)
        } else {
            None
        },
        None => None,
    }
}

/// Why a file is refused as a torrent, if it is: the first of these that
/// holds.
pub open spec fn torrent_refusal(d: Seq<u8>) -> Option<Seq<char>> {
    if !is_dictionary(d) {
        Some("not a bencoded dictionary"@)
    } else {
        match info_place(d) {
            None => Some("missing 'info' dictionary"@),
            Some(info) => match dict_text(d, info, "name"@) {
                None => Some("missing 'name'"@),
                Some(name) => if dict_count(d, info, "piece length"@) is None {
                    Some("missing 'piece length'"@)
                } else if dict_pieces(d, info) is None {
                    Some("missing or malformed 'pieces'"@)
                } else {
                    match stated_files(d, info, name) {
                        None => Some("missing or malformed files"@),
                        Some(files) => if entries_total(files.0) > u64::MAX {
                            Some("the files are too large"@)
                        } else {
                            None
                        },
                    }
                },
            },
        }
    }
}

/// The creation date as a number.
pub open spec fn date_view(date: Option<i64>) -> Option<int> {
    match date {
        Some(v) => Some(v as int),
        None => None,
    }
}

/// `m` is what the torrent file `d` states: the name, the piece length,
/// the piece hashes and the files of its dictionary `info`, laid out one
/// after the other; the SHA-1 of the bytes of that dictionary as
/// info-hash; and the trackers, the comment, the creation date and the
/// author of the file where it states them.
pub open spec fn describes(d: Seq<u8>, m: Metainfo) -> bool {
    let info = info_place(d)->0;
    let name = dict_text(d, info, "name"@)->0;
    let files = stated_files(d, info, name)->0;
    &&& m.info.name@ == name
    &&& m.info.piece_length == dict_count(d, info, "piece length"@)->0
    &&& hashes_view(m.info.pieces@) == dict_pieces(d, info)->0
    &&& laid_out(files.0, m.info.files@)
    &&& m.info.total_size == entries_total(files.0)
    &&& m.info.is_single_file == files.1
    &&& m.info.private == (dict_int(d, info, "private"@) == Some(1int))
    &&& m.info_hash@ == sha1_of(d.subrange(info, value_end(d, info, MAX_DEPTH as nat)->0))
    &&& opt_view(m.announce) == dict_text(d, 0, "announce"@)
    &&& tiers_view(m.announce_list@) == stated_tiers(d, 0)
    &&& opt_view(m.comment) == dict_text(d, 0, "comment"@)
    &&& date_view(m.creation_date) == dict_int(d, 0, "creation date"@)
    &&& opt_view(m.created_by) == dict_text(d, 0, "created by"@)
}

fn refused(why: &str) -> (e: EngineError)
    ensures
        e@ == (EngineErrorView::InvalidInput {
            field: "torrent"@,
            message: "Invalid torrent: "@ + why@,
        }),
{
    EngineError::invalid_input("torrent", join2("Invalid torrent: ", why))
}

/// Reads a torrent file. Whether what it states is consistent is for
/// `Metainfo::is_consistent` to say.
pub fn parse_metainfo(data: &Vec<u8>) -> (r: Result<Metainfo, EngineError>)
    ensures
        match r {
            Ok(m) => torrent_refusal(data@) is None && describes(data@, m),
            Err(e) => torrent_refusal(data@) matches Some(why) && e@
                == (EngineErrorView::InvalidInput {
                field: "torrent"@,
                message: "Invalid torrent: "@ + why,
            }),
        },
{
    if data.len() == 0 || data[0] != 0x64 {
        return Err(refused("not a bencoded dictionary"));
    }
    match value_end_at(data, 0, MAX_DEPTH) {
        Some(end) => {
            if end != data.len() {
                return Err(refused("not a bencoded dictionary"));
            }
        },
        None => {
            return Err(refused("not a bencoded dictionary"));
        },
    }
    assert(is_dictionary(data@));
    let info = match dict_get_at(data, 0, "info") {
        Some(v) => v,
        None => {
            return Err(refused("missing 'info' dictionary"));
        },
    };
    if info >= data.len() || data[info] != 0x64 {
        return Err(refused("missing 'info' dictionary"));
    }
    let info_end = match value_end_at(data, info, MAX_DEPTH) {
        Some(end) => end,
        None => {
            return Err(refused("missing 'info' dictionary"));
        },
    };
    assert(info_place(data@) == Some(info as int));
    let name = match text_of(data, info, "name") {
        Some(name) => name,
        None => {
            return Err(refused("missing 'name'"));
        },
    };
    let piece_length = match count_of(data, info, "piece length") {
        Some(n) => n,
        None => {
            return Err(refused("missing 'piece length'"));
        },
    };
    let pieces = match pieces_of(data, info) {
        Some(pieces) => pieces,
        None => {
            return Err(refused("missing or malformed 'pieces'"));
        },
    };
    let (entries, is_single_file) = match read_stated_files(data, info, name.as_str()) {
        Some(files) => files,
        None => {
            return Err(refused("missing or malformed files"));
        },
    };
    let ghost stated = entries_view(entries@);
    let (files, total_size) = match lay_out(entries) {
        Some(laid) => laid,
        None => {
            return Err(refused("the files are too large"));
        },
    };
    assert(torrent_refusal(data@) is None);
    let private = match int_of(data, info, "private") {
        Some(v) => v == 1,
        None => false,
    };
    let info_hash = sha1_digest(&bytes_between(data, info, info_end));
    let announce = text_of(data, 0, "announce");
    let announce_list = read_tiers(data, 0);
    let comment = text_of(data, 0, "comment");
    let creation_date = int_of(data, 0, "creation date");
    let created_by = text_of(data, 0, "created by");
    Ok(
        Metainfo {
            info: Info { name, piece_length, pieces, files, total_size, is_single_file, private },
            info_hash,
            announce,
            announce_list,
            comment,
            creation_date,
            created_by,
        },
    )
}

/// What the file states of its data agrees: pieces have a length that
/// block offsets can address, and there is one hash for each piece of the
/// sum of the file lengths.
pub open spec fn stated_consistent(d: Seq<u8>) -> bool {
    let info = info_place(d)->0;
    let name = dict_text(d, info, "name"@)->0;
    let files = stated_files(d, info, name)->0;
    let piece_length = dict_count(d, info, "piece length"@)->0;
    let total = entries_total(files.0);
    let pieces = dict_pieces(d, info)->0;
    &&& 0 < piece_length <= u32::MAX
    &&& pieces.len() == (total + piece_length - 1) / (piece_length as int)
    &&& pieces.len() <= max_bits()
    &&& pieces.len() <= u32::MAX
}

/// Files that are laid out as the entries say add up as the entries do.
pub proof fn lemma_laid_out_total(entries: Seq<(Seq<char>, u64)>, files: Seq<FileInfo>, k: int)
    requires
        laid_out(entries, files),
        0 <= k <= files.len(),
    ensures
        files_total(files.take(k)) == entries_total(entries.take(k)),
    decreases k,
{
    if k > 0 {
        lemma_laid_out_total(entries, files, k - 1);
        assert(files.take(k).drop_last() == files.take(k - 1));
        assert(entries.take(k).drop_last() == entries.take(k - 1));
        assert(files.take(k).last() == files[k - 1]);
        assert(entries.take(k).last() == entries[k - 1]);
    }
}

/// A description of a torrent file is consistent exactly where what the
/// file states is.
pub proof fn lemma_described_consistent(d: Seq<u8>, m: Metainfo)
    requires
        describes(d, m),
    ensures
        m.wf() == stated_consistent(d),
{
    let info = info_place(d)->0;
    let name = dict_text(d, info, "name"@)->0;
    let stated = stated_files(d, info, name)->0;
    let entries = stated.0;
    let files = m.info.files@;
    assert(files.take(files.len() as int) == files);
    assert(entries.take(entries.len() as int) == entries);
    lemma_laid_out_total(entries, files, files.len() as int);
    assert forall|i: int| 0 <= i < files.len() implies (#[trigger] files[i]).offset
        == files_total(files.take(i)) by {
        lemma_laid_out_total(entries, files, i);
    }
    assert(hashes_view(m.info.pieces@).len() == m.info.pieces@.len());
}

} // verus!
