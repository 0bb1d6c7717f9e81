//! Magnet links: `magnet:?xt=urn:btih:<info-hash>&dn=<name>&tr=<tracker>`,
//! with the info-hash as 40 hexadecimal or 32 base32 digits.

use crate::error::{EngineError, EngineErrorView};
use crate::http::probe::{percent_decode, percent_decoded};
use crate::text::{
    chars_of, eq_ignore_ascii_case, eq_ignoring_ascii_case, find, has_prefix, hex_digit,
    is_hex_digit, is_text, occurs_at, owned, rows_view, slice, spec_find, spec_split, split_on,
    starts_with, string_of,
};
use crate::torrent::metainfo::Sha1Hash;
use crate::torrent::MagnetUri;
use crate::types::{all_hex_digits, hex_digit_value, opt_view, strings_view};
use vstd::prelude::*;

verus! {

// ---------------------------------------------------------------------------
// Info-hashes
// ---------------------------------------------------------------------------

/// The 20 bytes that 40 hexadecimal digits stand for, two digits a byte.
pub open spec fn hex_hash(s: Seq<char>) -> Option<Seq<u8>> {
    if s.len() == 40 && all_hex_digits(s) {
        Some(
            Seq::new(
                20,
                |i: int| (hex_digit_value(s[2 * i]) * 16 + hex_digit_value(s[2 * i + 1])) as u8,
            ),
        )
    } else {
        None
    }
}

/// The value of a base32 digit: `A` to `Z` of either case are 0 to 25, `2`
/// to `7` are 26 to 31.
pub open spec fn base32_digit(c: char) -> Option<int> {
    let u = c as u32 as int;
    if 0x41 <= u <= 0x5A {
        Some(u - 0x41)
    } else if 0x61 <= u <= 0x7A {
        Some(u - 0x61)
    } else if 0x32 <= u <= 0x37 {
        Some(u - 0x32 + 26)
    } else {
        None
    }
}

pub open spec fn all_base32(s: Seq<char>) -> bool {
    forall|i: int| 0 <= i < s.len() ==> base32_digit(#[trigger] s[i]) is Some
}

/// The number that a row of base32 digits stands for.
pub open spec fn base32_value(s: Seq<char>) -> int
    decreases s.len(),
{
    if s.len() == 0 {
        0
    } else {
        base32_value(s.drop_last()) * 32 + base32_digit(s.last()).unwrap()
    }
}

/// Byte `k` of the five bytes that eight base32 digits of value `v` stand
/// for, the most significant first.
pub open spec fn group_byte(v: int, k: int) -> u8 {
    if k == 0 {
        (v / 0x1_0000_0000 % 256) as u8
    } else if k == 1 {
        (v / 0x100_0000 % 256) as u8
    } else if k == 2 {
        (v / 0x1_0000 % 256) as u8
    } else if k == 3 {
        (v / 0x100 % 256) as u8
    } else {
        (v % 256) as u8
    }
}

/// The 20 bytes that 32 base32 digits stand for: five bytes for every
/// eight digits.
pub open spec fn base32_hash(s: Seq<char>) -> Option<Seq<u8>> {
    if s.len() == 32 && all_base32(s) {
        Some(
            Seq::new(
                20,
                |i: int| group_byte(base32_value(s.subrange(8 * (i / 5), 8 * (i / 5) + 8)), i % 5),
            ),
        )
    } else {
        None
    }
}

/// The info-hash that a text states: 40 hexadecimal digits or 32 base32
/// digits.
pub open spec fn spec_info_hash(s: Seq<char>) -> Option<Seq<u8>> {
    if s.len() == 40 {
        hex_hash(s)
    } else if s.len() == 32 {
        base32_hash(s)
    } else {
        None
    }
}

fn hex_digit_number(c: char) -> (r: u8)
    requires
        is_hex_digit(c),
    ensures
        r == hex_digit_value(c),
        r < 16,
{
    let u: u32 = c as u32;
    if u <= 0x39 {
        (u - 0x30) as u8
    } else if u <= 0x46 {
        (u - 0x41 + 10) as u8
    } else {
        (u - 0x61 + 10) as u8
    }
}

fn base32_digit_number(c: char) -> (r: Option<u8>)
    ensures
        match r {
            Some(v) => base32_digit(c) == Some(v as int) && v < 32,
            None => base32_digit(c) is None,
        },
{
    let u: u32 = c as u32;
    if 0x41 <= u && u <= 0x5A {
        Some((u - 0x41) as u8)
    } else if 0x61 <= u && u <= 0x7A {
        Some((u - 0x61) as u8)
    } else if 0x32 <= u && u <= 0x37 {
        Some((u - 0x32 + 26) as u8)
    } else {
        None
    }
}

fn read_hex_hash(s: &Vec<char>) -> (r: Option<Vec<u8>>)
    requires
        s.len() == 40,
    ensures
        opt_bytes(r) == hex_hash(s@),
{
    let mut out: Vec<u8> = Vec::new();
    let mut i: usize = 0;
    while i < 20
        invariant
            i <= 20,
            s.len() == 40,
            out@.len() == i,
            forall|j: int| 0 <= j < 2 * i ==> is_hex_digit(#[trigger] s@[j]),
            forall|j: int|
                0 <= j < i ==> out@[j] == (hex_digit_value(s@[2 * j]) * 16 + hex_digit_value(
                    s@[2 * j + 1],
                )) as u8,
        decreases 20 - i,
    {
        let a = s[2 * i];
        let b = s[2 * i + 1];
        if !hex_digit(a) || !hex_digit(b) {
            assert(!all_hex_digits(s@)) by {
                if all_hex_digits(s@) {
                    assert(is_hex_digit(s@[2 * i as int]));
                    assert(is_hex_digit(s@[2 * i as int + 1]));
                }
            }
            return None;
        }
        out.push(hex_digit_number(a) * 16 + hex_digit_number(b));
        i += 1;
    }
    assert(all_hex_digits(s@));
    assert(out@ =~= hex_hash(s@).unwrap());
    Some(out)
}

/// The number that a base32 row stands for is below `32^len`; for eight
/// digits it is below `2^40`.
proof fn lemma_base32_bound(s: Seq<char>)
    requires
        all_base32(s),
        s.len() <= 8,
    ensures
        0 <= base32_value(s),
        s.len() == 8 ==> base32_value(s) < 0x100_0000_0000,
        s.len() == 7 ==> base32_value(s) < 0x8_0000_0000,
        s.len() == 6 ==> base32_value(s) < 0x4000_0000,
        s.len() == 5 ==> base32_value(s) < 0x200_0000,
        s.len() == 4 ==> base32_value(s) < 0x10_0000,
        s.len() == 3 ==> base32_value(s) < 0x8000,
        s.len() == 2 ==> base32_value(s) < 0x400,
        s.len() == 1 ==> base32_value(s) < 0x20,
        s.len() == 0 ==> base32_value(s) == 0,
    decreases s.len(),
{
    if s.len() > 0 {
        assert(all_base32(s.drop_last())) by {
            assert forall|i: int| 0 <= i < s.drop_last().len() implies base32_digit(
                #[trigger] s.drop_last()[i],
            ) is Some by {
                assert(s.drop_last()[i] == s[i]);
            }
        }
        lemma_base32_bound(s.drop_last());
        assert(base32_digit(s[s.len() - 1]) is Some);
    }
}

fn read_base32_hash(s: &Vec<char>) -> (r: Option<Vec<u8>>)
    requires
        s.len() == 32,
    ensures
        opt_bytes(r) == base32_hash(s@),
{
    let mut out: Vec<u8> = Vec::new();
    let mut g: usize = 0;
    while g < 4
        invariant
            g <= 4,
            s.len() == 32,
            out@.len() == 5 * g,
            forall|j: int| 0 <= j < 8 * g ==> base32_digit(#[trigger] s@[j]) is Some,
            forall|j: int|
                0 <= j < 5 * g ==> out@[j] == group_byte(
                    base32_value(s@.subrange(8 * (j / 5), 8 * (j / 5) + 8)),
                    j % 5,
                ),
        decreases 4 - g,
    {
        let mut v: u64 = 0;
        let mut k: usize = 0;
        let ghost group = s@.subrange(8 * g as int, 8 * g as int + 8);
        assert(group.take(0) =~= Seq::empty());
        while k < 8
            invariant
                k <= 8,
                g < 4,
                s.len() == 32,
                group == s@.subrange(8 * g as int, 8 * g as int + 8),
                all_base32(group.take(k as int)),
                v == base32_value(group.take(k as int)),
            decreases 8 - k,
        {
            proof {
                lemma_base32_bound(group.take(k as int));
            }
            let digit = match base32_digit_number(s[8 * g + k]) {
                Some(d) => d,
                None => {
                    assert(!all_base32(s@)) by {
                        if all_base32(s@) {
                            assert(base32_digit(s@[8 * g as int + k as int]) is Some);
                        }
                    }
                    return None;
                },
            };
            proof {
                let next = group.take(k + 1);
                assert(next.drop_last() == group.take(k as int));
                assert(next.last() == s@[8 * g as int + k as int]);
                assert(all_base32(next)) by {
                    assert forall|i: int| 0 <= i < next.len() implies base32_digit(
                        #[trigger] next[i],
                    ) is Some by {
                        if i < k {
                            assert(next[i] == group.take(k as int)[i]);
                        }
                    }
                }
            }
            v = v * 32 + digit as u64;
            k += 1;
        }
        proof {
            assert(group.take(8) == group);
            lemma_base32_bound(group);
            assert forall|j: int| 0 <= j < 8 * (g + 1) implies base32_digit(
                #[trigger] s@[j],
            ) is Some by {
                if j >= 8 * g {
                    assert(group[j - 8 * g] == s@[j]);
                }
            }
        }
        let ghost before = out@;
        out.push((v / 0x1_0000_0000 % 256) as u8);
        out.push((v / 0x100_0000 % 256) as u8);
        out.push((v / 0x1_0000 % 256) as u8);
        out.push((v / 0x100 % 256) as u8);
        out.push((v % 256) as u8);
        proof {
            assert forall|j: int| 0 <= j < 5 * (g + 1) implies out@[j] == group_byte(
                base32_value(s@.subrange(8 * (j / 5), 8 * (j / 5) + 8)),
                j % 5,
            ) by {
                if j < 5 * g {
                    assert(out@[j] == before[j]);
                } else {
                    assert(j / 5 == g);
                    assert(j % 5 == j - 5 * g);
                }
            }
        }
        g += 1;
    }
    assert(all_base32(s@));
    assert(out@ =~= base32_hash(s@).unwrap());
    Some(out)
}

/// The bytes of an optional row.
pub open spec fn opt_bytes(v: Option<Vec<u8>>) -> Option<Seq<u8>> {
    match v {
        Some(b) => Some(b@),
        None => None,
    }
}

fn read_info_hash(s: &Vec<char>) -> (r: Option<Sha1Hash>)
    ensures
        match r {
            Some(h) => spec_info_hash(s@) == Some(h@),
            None => spec_info_hash(s@) is None,
        },
{
    let bytes = if s.len() == 40 {
        read_hex_hash(s)
    } else if s.len() == 32 {
        read_base32_hash(s)
    } else {
        None
    };
    match bytes {
        None => None,
        Some(b) => {
            let mut hash: Sha1Hash = [0u8; 20];
            let mut i: usize = 0;
            while i < 20
                invariant
                    i <= 20,
                    b@.len() == 20,
                    hash@.len() == 20,
                    forall|j: int| 0 <= j < i ==> hash@[j] == b@[j],
                decreases 20 - i,
            {
                hash[i] = b[i];
                i += 1;
            }
            assert(hash@ =~= b@);
            Some(hash)
        },
    }
}

// ---------------------------------------------------------------------------
// The link
// ---------------------------------------------------------------------------

/// What a magnet link states.
pub struct MagnetParts {
    pub info_hash: Option<Seq<u8>>,
    pub display_name: Option<Seq<char>>,
    pub trackers: Seq<Seq<char>>,
}

/// A value of the query with every `+` read as a space.
pub open spec fn spaced(s: Seq<char>) -> Seq<char> {
    s.map_values(
        |c: char|
            if c == '+' {
                ' '
            } else {
                c
            },
    )
}

/// A value of the query as text: percent-decoded, with `+` for a space; a
/// value whose bytes are no UTF-8 stays as it is written.
pub open spec fn decoded_value(value: Seq<char>) -> Seq<char> {
    match percent_decoded(spaced(value)) {
        Some(text) => text,
        None => spaced(value),
    }
}

/// What a link states once one more `key=value` pair of its query is read:
/// `xt=urn:btih:…` states the info-hash, `dn` the name, each `tr` one more
/// tracker. A later info-hash or name replaces an earlier one; anything
/// else is passed over.
pub open spec fn with_pair(parts: MagnetParts, pair: Seq<char>) -> MagnetParts {
    match spec_find(pair, seq!['=']) {
        None => parts,
        Some(at) => {
            let key = pair.take(at);
            let value = pair.skip(at + 1);
            if key == "xt"@ {
                if has_prefix(value, "urn:btih:"@) {
                    MagnetParts { info_hash: spec_info_hash(value.skip(9)), ..parts }
                } else {
                    parts
                }
            } else if key == "dn"@ {
                MagnetParts { display_name: Some(decoded_value(value)), ..parts }
            } else if key == "tr"@ {
                MagnetParts { trackers: parts.trackers.push(decoded_value(value)), ..parts }
            } else {
                parts
            }
        },
    }
}

/// What the pairs of a query state, read in order.
pub open spec fn with_pairs(pairs: Seq<Seq<char>>) -> MagnetParts
    decreases pairs.len(),
{
    if pairs.len() == 0 {
        MagnetParts { info_hash: None, display_name: None, trackers: Seq::empty() }
    } else {
        with_pair(with_pairs(pairs.drop_last()), pairs.last())
    }
}

/// The text begins with `magnet:?`, whatever the case of its letters.
pub open spec fn is_magnet(uri: Seq<char>) -> bool {
    uri.len() >= 8 && eq_ignoring_ascii_case(uri.take(8), "magnet:?"@)
}

/// What a magnet link states, if the text is one and states an info-hash.
pub open spec fn spec_parse_magnet(uri: Seq<char>) -> Option<MagnetParts> {
    if is_magnet(uri) {
        let parts = with_pairs(spec_split(uri.skip(8), '&'));
        if parts.info_hash is Some {
            Some(parts)
        } else {
            None
        }
    } else {
        None
    }
}

/// Why a text is refused as a magnet link, if it is.
pub open spec fn magnet_refusal(uri: Seq<char>) -> Option<EngineErrorView> {
    if !is_magnet(uri) {
        Some(
            EngineErrorView::InvalidInput {
                field: "magnet_uri"@,
                message: "Not a magnet link"@,
            },
        )
    } else if spec_parse_magnet(uri) is None {
        Some(
            EngineErrorView::InvalidInput {
                field: "magnet_uri"@,
                message: "Missing or malformed info-hash"@,
            },
        )
    } else {
        None
    }
}

fn decode_value(value: &Vec<char>) -> (r: String)
    ensures
        r@ == decoded_value(value@),
{
    let mut plain: Vec<char> = Vec::new();
    let mut i: usize = 0;
    while i < value.len()
        invariant
            i <= value.len(),
            plain@.len() == i,
            forall|j: int| 0 <= j < i ==> plain@[j] == spaced(value@)[j],
        decreases value.len() - i,
    {
        let c = value[i];
        plain.push(
            if c == '+' {
                ' '
            } else {
                c
            },
        );
        i += 1;
    }
    assert(plain@ =~= spaced(value@));
    let text = string_of(&plain);
    match percent_decode(text.as_str()) {
        Some(decoded) => decoded,
        None => text,
    }
}

impl MagnetUri {
    /// What the link states, as sequences.
    pub open spec fn parts(&self) -> MagnetParts {
        MagnetParts {
            info_hash: Some(self.info_hash@),
            display_name: opt_view(self.display_name),
            trackers: strings_view(self.trackers@),
        }
    }
}

/// Reads a magnet link.
pub fn parse_magnet(uri: &str) -> (r: Result<MagnetUri, EngineError>)
    ensures
        match r {
            Ok(m) => spec_parse_magnet(uri@) == Some(m.parts()),
            Err(e) => magnet_refusal(uri@) == Some(e@),
        },
{
    let text = chars_of(uri);
    if text.len() < 8 {
        return Err(EngineError::invalid_input("magnet_uri", owned("Not a magnet link")));
    }
    let head = slice(&text, 0, 8);
    assert(head@ == text@.take(8));
    if !eq_ignore_ascii_case(&head, &chars_of("magnet:?")) {
        return Err(EngineError::invalid_input("magnet_uri", owned("Not a magnet link")));
    }
    let query = slice(&text, 8, text.len());
    assert(query@ == text@.skip(8));
    let pairs = split_on(&query, '&');
    let mut info_hash: Option<Sha1Hash> = None;
    let mut display_name: Option<String> = None;
    let mut trackers: Vec<String> = Vec::new();
    let equals: Vec<char> = vec!['='];
    assert(equals@ == seq!['=']);
    let mut i: usize = 0;
    assert(rows_view(pairs@.take(0)) =~= Seq::empty());
    assert(strings_view(trackers@) =~= Seq::empty());
    while i < pairs.len()
        invariant
            i <= pairs.len(),
            equals@ == seq!['='],
            with_pairs(rows_view(pairs@.take(i as int))).info_hash == match info_hash {
                Some(h) => Some(h@),
                None => None,
            },
            with_pairs(rows_view(pairs@.take(i as int))).display_name == opt_view(display_name),
            with_pairs(rows_view(pairs@.take(i as int))).trackers == strings_view(trackers@),
        decreases pairs.len() - i,
    {
        let pair = &pairs[i];
        proof {
            let now = rows_view(pairs@.take(i + 1));
            assert(now.drop_last() =~= rows_view(pairs@.take(i as int)));
            assert(now.last() == pair@);
        }
        match find(pair, &equals) {
            None => {},
            Some(at) => {
                assert(occurs_at(pair@, equals@, at as int));
                assert(at + 1 <= pair.len());
                let key = slice(pair, 0, at);
                let value = slice(pair, at + 1, pair.len());
                assert(key@ == pair@.take(at as int));
                assert(value@ == pair@.skip(at + 1));
                if is_text(&key, "xt") {
                    let prefix = chars_of("urn:btih:");
                    proof {
                        reveal_strlit("urn:btih:");
                    }
                    if starts_with(&value, &prefix) {
                        assert(occurs_at(value@, prefix@, 0));
                        let digits = slice(&value, 9, value.len());
                        assert(digits@ == value@.skip(9));
                        info_hash = read_info_hash(&digits);
                    }
                } else if is_text(&key, "dn") {
                    proof {
                        reveal_strlit("xt");
                        reveal_strlit("dn");
                    }
                    display_name = Some(decode_value(&value));
                } else if is_text(&key, "tr") {
                    proof {
                        reveal_strlit("xt");
                        reveal_strlit("dn");
                        reveal_strlit("tr");
                    }
                    let ghost before = strings_view(trackers@);
                    let tracker = decode_value(&value);
                    trackers.push(tracker);
                    assert(strings_view(trackers@) =~= before.push(decoded_value(value@)));
                }
            },
        }
        i += 1;
    }
    assert(pairs@.take(pairs.len() as int) == pairs@);
    match info_hash {
        Some(info_hash) => Ok(MagnetUri { info_hash, display_name, trackers }),
        None => Err(
            EngineError::invalid_input("magnet_uri", owned("Missing or malformed info-hash")),
        ),
    }
}

} // verus!
