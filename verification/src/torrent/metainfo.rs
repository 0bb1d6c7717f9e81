//! The description of a torrent that the piece engine works from: files,
//! piece length, piece hashes and trackers.

use crate::error::{EngineError, EngineErrorView, ProtocolErrorKind};
use crate::text::{chars_of, owned, str_eq};
use crate::torrent::bitfield::max_bits;
use crate::types::strings_view;
use vstd::prelude::*;

verus! {

/// A SHA-1 digest.
pub type Sha1Hash = [u8; 20];

/// One file of a torrent.
#[derive(Debug)]
pub struct FileInfo {
    /// Path relative to the torrent's directory.
    pub path: String,
    /// Length in bytes.
    pub length: u64,
    /// Where the file begins in the concatenation of all files.
    pub offset: u64,
}

/// The `info` dictionary of a torrent.
#[derive(Debug)]
pub struct Info {
    /// Name of the file, or of the directory in multi-file mode.
    pub name: String,
    pub piece_length: u64,
    /// One SHA-1 digest per piece.
    pub pieces: Vec<Sha1Hash>,
    /// The files in declaration order.
    pub files: Vec<FileInfo>,
    /// Sum of the lengths of the files.
    pub total_size: u64,
    pub is_single_file: bool,
    /// Whether peers may only come from the trackers.
    pub private: bool,
}

/// A parsed torrent file.
#[derive(Debug)]
pub struct Metainfo {
    pub info: Info,
    /// SHA-1 of the bencoded `info` dictionary.
    pub info_hash: Sha1Hash,
    pub announce: Option<String>,
    pub announce_list: Vec<Vec<String>>,
    pub comment: Option<String>,
    pub creation_date: Option<i64>,
    pub created_by: Option<String>,
}

/// Sum of the lengths of a list of files.
pub open spec fn files_total(files: Seq<FileInfo>) -> int
    decreases files.len(),
{
    if files.len() == 0 {
        0
    } else {
        files_total(files.drop_last()) + files.last().length
    }
}

/// Every file begins where the files before it end.
pub open spec fn offsets_ok(files: Seq<FileInfo>) -> bool {
    forall|i: int| 0 <= i < files.len() ==> (#[trigger] files[i]).offset == files_total(files.take(i))
}

/// The part of a file that lies in the byte range `start..end` of the
/// torrent: the offset within the file and the length, if not empty.
pub open spec fn overlap(file: FileInfo, start: int, end: int) -> Option<(int, int)> {
    let lo = if start >= file.offset {
        start
    } else {
        file.offset as int
    };
    let hi = if end <= file.offset + file.length {
        end
    } else {
        file.offset + file.length
    };
    if lo < hi {
        Some((lo - file.offset, hi - lo))
    } else {
        None
    }
}

/// The slices `(file index, offset in the file, length)` that the byte
/// range `start..end` of the torrent is laid out over, in file order.
pub open spec fn spec_files_for_range(files: Seq<FileInfo>, start: int, end: int) -> Seq<
    (usize, u64, u64),
>
    decreases files.len(),
{
    if files.len() == 0 {
        Seq::empty()
    } else {
        let rest = spec_files_for_range(files.drop_last(), start, end);
        match overlap(files.last(), start, end) {
            Some((off, len)) => rest.push(((files.len() - 1) as usize, off as u64, len as u64)),
            None => rest,
        }
    }
}

/// Sum of the lengths of a list of slices.
pub open spec fn slices_total(slices: Seq<(usize, u64, u64)>) -> int
    decreases slices.len(),
{
    if slices.len() == 0 {
        0
    } else {
        slices_total(slices.drop_last()) + slices.last().2
    }
}

/// The part of `start..end` that lies below `x`.
pub open spec fn clipped(start: int, end: int, x: int) -> int {
    let hi = if end <= x {
        end
    } else {
        x
    };
    if hi > start {
        hi - start
    } else {
        0
    }
}

pub proof fn lemma_files_total_nonneg(files: Seq<FileInfo>)
    ensures
        files_total(files) >= 0,
    decreases files.len(),
{
    if files.len() > 0 {
        lemma_files_total_nonneg(files.drop_last());
    }
}

/// The files before index `k` are no longer than all files.
pub proof fn lemma_files_total_prefix(files: Seq<FileInfo>, k: int)
    requires
        0 <= k <= files.len(),
    ensures
        0 <= files_total(files.take(k)) <= files_total(files),
        k < files.len() ==> files_total(files.take(k)) + files[k].length <= files_total(files),
    decreases files.len() - k,
{
    lemma_files_total_nonneg(files.take(k));
    if k == files.len() {
        assert(files.take(k) == files);
    } else {
        lemma_files_total_prefix(files, k + 1);
        assert(files.take(k + 1).drop_last() == files.take(k));
    }
}

/// The slices of a byte range over one more file are those over the files
/// before it and the part of the range that lies in the file, if any.
pub proof fn lemma_range_step(files: Seq<FileInfo>, i: int, start: int, end: int)
    requires
        0 <= i < files.len(),
    ensures
        files_total(files.take(i)) + files[i].length <= files_total(files),
        spec_files_for_range(files.take(i + 1), start, end) == match overlap(
            files[i],
            start,
            end,
        ) {
            Some((off, len)) => spec_files_for_range(files.take(i), start, end).push(
                (i as usize, off as u64, len as u64),
            ),
            None => spec_files_for_range(files.take(i), start, end),
        },
{
    lemma_files_total_prefix(files, i);
    assert(files.take(i + 1).drop_last() == files.take(i));
    assert(files.take(i + 1).last() == files[i]);
    assert(files.take(i + 1).len() - 1 == i);
}

/// The slices of a byte range cover exactly the part of the range that
/// lies within the files.
pub proof fn lemma_slices_cover(files: Seq<FileInfo>, start: int, end: int)
    requires
        offsets_ok(files),
        0 <= start <= end,
    ensures
        slices_total(spec_files_for_range(files, start, end)) == clipped(
            start,
            end,
            files_total(files),
        ),
    decreases files.len(),
{
    lemma_files_total_nonneg(files);
    if files.len() > 0 {
        let rest = files.drop_last();
        assert(offsets_ok(rest)) by {
            assert forall|i: int| 0 <= i < rest.len() implies (#[trigger] rest[i]).offset
                == files_total(rest.take(i)) by {
                assert(rest[i] == files[i]);
                assert(rest.take(i) == files.take(i));
            }
        }
        lemma_slices_cover(rest, start, end);
        lemma_files_total_nonneg(rest);
        let last = files.last();
        assert(last == files[files.len() - 1]);
        assert(files.take(files.len() - 1) == rest);
        assert(last.offset == files_total(rest));
        let all = spec_files_for_range(files, start, end);
        match overlap(last, start, end) {
            Some((off, len)) => {
                assert(all.drop_last() == spec_files_for_range(rest, start, end));
            },
            None => {},
        }
    }
}

impl Info {
    pub open spec fn spec_num_pieces(&self) -> int {
        self.pieces.len() as int
    }

    /// The description is consistent: pieces have a length that block
    /// offsets can address, the files add up to the total size and follow
    /// one another, and there is one hash for each piece of the data.
    pub open spec fn wf(&self) -> bool {
        &&& 0 < self.piece_length <= u32::MAX
        &&& self.total_size == files_total(self.files@)
        &&& offsets_ok(self.files@)
        &&& self.pieces.len() == (self.total_size + self.piece_length - 1) / (
        self.piece_length as int)
        &&& self.pieces.len() <= max_bits()
        &&& self.pieces.len() <= u32::MAX
    }

    /// The byte at which piece `index` begins.
    pub open spec fn piece_start(&self, index: int) -> int {
        index * self.piece_length
    }

    /// The byte before which piece `index` ends.
    pub open spec fn piece_end(&self, index: int) -> int {
        if (index + 1) * self.piece_length <= self.total_size {
            (index + 1) * self.piece_length
        } else {
            self.total_size as int
        }
    }

    /// Length of piece `index`: the piece length, but for the last piece,
    /// which ends with the data.
    pub open spec fn spec_piece_length(&self, index: int) -> Option<u64> {
        if 0 <= index < self.pieces.len() {
            Some((self.piece_end(index) - self.piece_start(index)) as u64)
        } else {
            None
        }
    }

    /// Every piece begins within the data and is between one byte and a
    /// piece length long.
    pub proof fn lemma_piece_bounds(&self, index: int)
        requires
            self.wf(),
            0 <= index < self.pieces.len(),
        ensures
            0 <= self.piece_start(index) < self.total_size,
            self.piece_start(index) < self.piece_end(index) <= self.total_size,
            self.piece_end(index) - self.piece_start(index) <= self.piece_length,
            self.piece_start(index) + self.piece_length == (index + 1) * self.piece_length,
            self.spec_piece_length(index) == Some(
                (self.piece_end(index) - self.piece_start(index)) as u64,
            ),
    {
        let pl = self.piece_length as int;
        let total = self.total_size as int;
        let n = self.pieces.len() as int;
        assert(index * pl >= 0 && index * pl + pl == (index + 1) * pl && index * pl <= (n - 1)
            * pl) by (nonlinear_arith)
            requires
                0 <= index <= n - 1,
                pl > 0,
        ;
        assert((n - 1) * pl < total) by (nonlinear_arith)
            requires
                n == (total + pl - 1) / pl,
                n >= 1,
                pl > 0,
                total >= 0,
        ;
    }
}

/// Rounding a quotient up is adding one where a remainder is left.
pub proof fn lemma_div_round_up(total: int, pl: int)
    requires
        total >= 0,
        pl > 0,
    ensures
        (total + pl - 1) / pl == total / pl + if total % pl != 0 {
            1int
        } else {
            0int
        },
{
    let q = total / pl;
    let r = total % pl;
    assert(total == q * pl + r && 0 <= r < pl) by (nonlinear_arith)
        requires
            q == total / pl,
            r == total % pl,
            pl > 0,
    ;
    if r == 0 {
        assert((q * pl + pl - 1) / pl == q) by (nonlinear_arith)
            requires
                pl > 0,
        ;
    } else {
        assert((q * pl + r + pl - 1) / pl == q + 1) by (nonlinear_arith)
            requires
                pl > 0,
                0 < r < pl,
        ;
    }
}

impl Info {
    /// Whether the description is consistent.
    pub fn is_consistent(&self) -> (r: bool)
        ensures
            r == self.wf(),
    {
        if self.piece_length == 0 || self.piece_length > 0xFFFF_FFFF {
            return false;
        }
        let mut sum: u64 = 0;
        let mut i: usize = 0;
        assert(self.files@.take(0) =~= Seq::empty());
        while i < self.files.len()
            invariant
                i <= self.files.len(),
                sum == files_total(self.files@.take(i as int)),
                forall|j: int|
                    0 <= j < i ==> (#[trigger] self.files@[j]).offset == files_total(
                        self.files@.take(j),
                    ),
            decreases self.files.len() - i,
        {
            let f = &self.files[i];
            if f.offset != sum {
                return false;
            }
            if f.length > u64::MAX - sum {
                proof {
                    lemma_files_total_prefix(self.files@, i as int);
                }
                return false;
            }
            proof {
                assert(self.files@.take(i + 1).drop_last() == self.files@.take(i as int));
            }
            sum = sum + f.length;
            i += 1;
        }
        assert(self.files@.take(self.files.len() as int) == self.files@);
        if sum != self.total_size {
            return false;
        }
        let whole: u64 = self.total_size / self.piece_length;
        let rest: u64 = self.total_size % self.piece_length;
        proof {
            lemma_div_round_up(self.total_size as int, self.piece_length as int);
        }
        let n = self.pieces.len();
        if n > usize::MAX / 8 || n > 0xFFFF_FFFF {
            return false;
        }
        if rest != 0 {
            n >= 1 && (n - 1) as u64 == whole
        } else {
            n as u64 == whole
        }
    }
}

impl Metainfo {
    pub open spec fn wf(&self) -> bool {
        self.info.wf()
    }

    /// Whether the description of the torrent is consistent.
    pub fn is_consistent(&self) -> (r: bool)
        ensures
            r == self.wf(),
    {
        self.info.is_consistent()
    }

    /// Number of pieces.
    pub fn num_pieces(&self) -> (n: usize)
        ensures
            n == self.info.pieces.len(),
    {
        self.info.pieces.len()
    }

    /// Length of piece `index`, if there is such a piece.
    pub fn piece_length(&self, index: usize) -> (r: Option<u64>)
        requires
            self.wf(),
        ensures
            r == self.info.spec_piece_length(index as int),
            r matches Some(len) ==> 0 < len <= self.info.piece_length,
    {
        if index >= self.info.pieces.len() {
            return None;
        }
        proof {
            self.info.lemma_piece_bounds(index as int);
        }
        let start: u64 = (index as u64) * self.info.piece_length;
        let left: u64 = self.info.total_size - start;
        if left < self.info.piece_length {
            Some(left)
        } else {
            Some(self.info.piece_length)
        }
    }

    /// The expected SHA-1 of piece `index`, if there is such a piece.
    pub fn piece_hash(&self, index: usize) -> (r: Option<&Sha1Hash>)
        ensures
            r == if index < self.info.pieces.len() {
                Some(&self.info.pieces@[index as int])
            } else {
                None
            },
    {
        if index < self.info.pieces.len() {
            Some(&self.info.pieces[index])
        } else {
            None
        }
    }

    /// The bytes `start..end` of the torrent that piece `index` covers.
    pub fn piece_range(&self, index: usize) -> (r: (u64, u64))
        requires
            self.wf(),
            index < self.info.pieces.len(),
        ensures
            r.0 == self.info.piece_start(index as int),
            r.1 == self.info.piece_end(index as int),
            r.0 < r.1 <= self.info.total_size,
            r.1 - r.0 <= self.info.piece_length,
    {
        proof {
            self.info.lemma_piece_bounds(index as int);
        }
        let start: u64 = (index as u64) * self.info.piece_length;
        let left: u64 = self.info.total_size - start;
        let end: u64 = if left < self.info.piece_length {
            self.info.total_size
        } else {
            start + self.info.piece_length
        };
        (start, end)
    }

    /// The slices `(file index, offset in the file, length)` that piece
    /// `index` is laid out over, in file order; none for an unknown piece.
    pub fn files_for_piece(&self, index: usize) -> (r: Vec<(usize, u64, u64)>)
        requires
            self.wf(),
        ensures
            index < self.info.pieces.len() ==> r@ == spec_files_for_range(
                self.info.files@,
                self.info.piece_start(index as int),
                self.info.piece_end(index as int),
            ),
            index < self.info.pieces.len() ==> slices_total(r@) == self.info.piece_end(
                index as int,
            ) - self.info.piece_start(index as int),
            index < self.info.pieces.len() ==> Some(slices_total(r@) as u64)
                == self.info.spec_piece_length(index as int),
            index >= self.info.pieces.len() ==> r@.len() == 0,
    {
        let mut out: Vec<(usize, u64, u64)> = Vec::new();
        if index >= self.info.pieces.len() {
            return out;
        }
        let (start, end) = self.piece_range(index);
        let ghost files = self.info.files@;
        let mut i: usize = 0;
        while i < self.info.files.len()
            invariant
                i <= self.info.files.len(),
                files == self.info.files@,
                offsets_ok(files),
                self.info.total_size == files_total(files),
                start <= end,
                out@ == spec_files_for_range(files.take(i as int), start as int, end as int),
            decreases self.info.files.len() - i,
        {
            let f = &self.info.files[i];
            proof {
                lemma_range_step(files, i as int, start as int, end as int);
            }
            let file_end: u64 = f.offset + f.length;
            let lo: u64 = if start >= f.offset {
                start
            } else {
                f.offset
            };
            let hi: u64 = if end <= file_end {
                end
            } else {
                file_end
            };
            if lo < hi {
                out.push((i, lo - f.offset, hi - lo));
            }
            i += 1;
        }
        proof {
            assert(files.take(files.len() as int) == files);
            lemma_slices_cover(files, start as int, end as int);
        }
        out
    }
}

// ---------------------------------------------------------------------------
// Trackers
// ---------------------------------------------------------------------------

/// The texts of `s` without repetitions, each where it first stands.
pub open spec fn without_repeats(s: Seq<Seq<char>>) -> Seq<Seq<char>>
    decreases s.len(),
{
    if s.len() == 0 {
        Seq::empty()
    } else {
        let d = without_repeats(s.drop_last());
        if d.contains(s.last()) {
            d
        } else {
            d.push(s.last())
        }
    }
}

/// The tiers of an announce list in one row.
pub open spec fn flattened(tiers: Seq<Vec<String>>) -> Seq<Seq<char>>
    decreases tiers.len(),
{
    if tiers.len() == 0 {
        Seq::empty()
    } else {
        flattened(tiers.drop_last()) + strings_view(tiers.last()@)
    }
}

/// Every tracker that a torrent names: `announce` first, then the tiers of
/// the announce list in order, each tracker once.
pub open spec fn spec_all_trackers(announce: Option<String>, tiers: Seq<Vec<String>>) -> Seq<
    Seq<char>,
> {
    without_repeats(
        (match announce {
            Some(a) => seq![a@],
            None => Seq::empty(),
        }) + flattened(tiers),
    )
}

/// Whether one of `list` spells `text`.
pub fn contains_text(list: &Vec<String>, text: &str) -> (r: bool)
    ensures
        r == strings_view(list@).contains(text@),
{
    let mut i: usize = 0;
    while i < list.len()
        invariant
            i <= list.len(),
            forall|j: int| 0 <= j < i ==> strings_view(list@)[j] != text@,
        decreases list.len() - i,
    {
        if str_eq(list[i].as_str(), text) {
            assert(strings_view(list@)[i as int] == text@);
            return true;
        }
        i += 1;
    }
    false
}

/// Appends `text` to `list` unless the list holds it already.
fn push_unique(list: &mut Vec<String>, text: &str, Ghost(seen): Ghost<Seq<Seq<char>>>)
    requires
        strings_view(old(list)@) == without_repeats(seen),
    ensures
        strings_view(final(list)@) == without_repeats(seen.push(text@)),
{
    assert(seen.push(text@).drop_last() == seen);
    if !contains_text(list, text) {
        list.push(owned(text));
        assert(strings_view(list@) == strings_view(old(list)@).push(text@));
    }
}

impl Metainfo {
    /// Every tracker that the torrent names, each once.
    pub fn all_trackers(&self) -> (r: Vec<String>)
        ensures
            strings_view(r@) == spec_all_trackers(self.announce, self.announce_list@),
    {
        let mut out: Vec<String> = Vec::new();
        let ghost mut seen: Seq<Seq<char>> = Seq::empty();
        assert(strings_view(out@) == without_repeats(seen));
        match &self.announce {
            Some(a) => {
                push_unique(&mut out, a.as_str(), Ghost(seen));
                proof {
                    seen = seen.push(a@);
                }
            },
            None => {},
        }
        let ghost head = seen;
        assert(head + flattened(self.announce_list@.take(0)) == head);
        let mut t: usize = 0;
        while t < self.announce_list.len()
            invariant
                t <= self.announce_list.len(),
                seen == head + flattened(self.announce_list@.take(t as int)),
                strings_view(out@) == without_repeats(seen),
            decreases self.announce_list.len() - t,
        {
            let tier = &self.announce_list[t];
            let ghost before = seen;
            assert(before + strings_view(tier@.take(0)) == before);
            let mut k: usize = 0;
            while k < tier.len()
                invariant
                    k <= tier.len(),
                    seen == before + strings_view(tier@.take(k as int)),
                    strings_view(out@) == without_repeats(seen),
                decreases tier.len() - k,
            {
                push_unique(&mut out, tier[k].as_str(), Ghost(seen));
                proof {
                    seen = seen.push(tier@[k as int]@);
                    assert(strings_view(tier@.take(k + 1)) == strings_view(
                        tier@.take(k as int),
                    ).push(tier@[k as int]@));
                    assert(seen == before + strings_view(tier@.take(k + 1)));
                }
                k += 1;
            }
            proof {
                assert(tier@.take(tier.len() as int) == tier@);
                let tiers = self.announce_list@;
                assert(tiers.take(t + 1).drop_last() == tiers.take(t as int));
                assert(tiers.take(t + 1).last() == *tier);
                assert(seen == head + flattened(tiers.take(t + 1)));
            }
            t += 1;
        }
        assert(self.announce_list@.take(self.announce_list.len() as int) == self.announce_list@);
        out
    }
}

// ---------------------------------------------------------------------------
// Path safety
// ---------------------------------------------------------------------------

/// The characters that separate the components of a path on any platform.
pub open spec fn is_separator(c: char) -> bool {
    c == '/' || c == '\\'
}

/// The letters that name a drive.
pub open spec fn is_drive_letter(c: char) -> bool {
    ('a' <= c && c <= 'z') || ('A' <= c && c <= 'Z')
}

/// The path begins at a root or with a platform prefix: a separator first,
/// or a drive letter and a colon. A colon behind anything else is part of
/// a name.
pub open spec fn is_absolute(path: Seq<char>) -> bool {
    (path.len() > 0 && is_separator(path[0])) || (path.len() > 1 && is_drive_letter(path[0])
        && path[1] == ':')
}

/// A component `..` stands at index `i` of the path.
pub open spec fn parent_at(path: Seq<char>, i: int) -> bool {
    &&& 0 <= i && i + 2 <= path.len()
    &&& path[i] == '.' && path[i + 1] == '.'
    &&& (i == 0 || is_separator(path[i - 1]))
    &&& (i + 2 == path.len() || is_separator(path[i + 2]))
}

/// The path has a parent-directory component.
pub open spec fn has_parent_component(path: Seq<char>) -> bool {
    exists|i: int| parent_at(path, i)
}

/// A relative path none of whose components leads upward: appended to a
/// directory it names a place inside that directory.
pub open spec fn path_is_safe(path: Seq<char>) -> bool {
    !is_absolute(path) && !has_parent_component(path)
}

/// What path validation answers for a path.
pub open spec fn spec_validate_path(path: Seq<char>) -> Option<EngineErrorView> {
    if is_absolute(path) {
        Some(
            EngineErrorView::Protocol {
                kind: ProtocolErrorKind::InvalidTorrent,
                message: "Invalid torrent: file path contains absolute path"@,
            },
        )
    } else if has_parent_component(path) {
        Some(
            EngineErrorView::Protocol {
                kind: ProtocolErrorKind::InvalidTorrent,
                message: "Invalid torrent: file path contains parent directory reference (..)"@,
            },
        )
    } else {
        None
    }
}

fn separator(c: char) -> (r: bool)
    ensures
        r == is_separator(c),
{
    c == '/' || c == '\\'
}

fn drive_letter(c: char) -> (r: bool)
    ensures
        r == is_drive_letter(c),
{
    ('a' <= c && c <= 'z') || ('A' <= c && c <= 'Z')
}

/// Rejects a path that is absolute, carries a platform prefix or has a
/// parent-directory component.
pub fn validate_path(path: &str) -> (r: Result<(), EngineError>)
    ensures
        r is Ok <==> path_is_safe(path@),
        match r {
            Ok(_) => spec_validate_path(path@) is None,
            Err(e) => spec_validate_path(path@) == Some(e@),
        },
{
    let p = chars_of(path);
    let n = p.len();
    if (n > 0 && separator(p[0])) || (n > 1 && drive_letter(p[0]) && p[1] == ':') {
        return Err(
            EngineError::protocol(
                ProtocolErrorKind::InvalidTorrent,
                owned("Invalid torrent: file path contains absolute path"),
            ),
        );
    }
    if n < 2 {
        assert forall|j: int| !parent_at(p@, j) by {}
        return Ok(());
    }
    let mut i: usize = 0;
    while i < n - 1
        invariant
            n == p.len(),
            n >= 2,
            i <= n - 1,
            p@ == path@,
            !is_absolute(p@),
            forall|j: int| 0 <= j < i ==> !parent_at(p@, j),
        decreases n - i,
    {
        if p[i] == '.' && p[i + 1] == '.' && (i == 0 || separator(p[i - 1])) && (i + 2 == n
            || separator(p[i + 2])) {
            assert(parent_at(p@, i as int));
            return Err(
                EngineError::protocol(
                    ProtocolErrorKind::InvalidTorrent,
                    owned("Invalid torrent: file path contains parent directory reference (..)"),
                ),
            );
        }
        i += 1;
    }
    assert forall|j: int| !parent_at(p@, j) by {
        if 0 <= j < i {
        }
    }
    Ok(())
}

impl Info {
    /// The name of the torrent and the path of each of its files are safe.
    pub open spec fn paths_safe(&self) -> bool {
        &&& path_is_safe(self.name@)
        &&& forall|i: int| 0 <= i < self.files.len() ==> path_is_safe((#[trigger] self.files@[i]).path@)
    }

    /// Checks the name of the torrent and the path of each file; a torrent
    /// with an unsafe path is invalid as a whole.
    pub fn validate_paths(&self) -> (r: Result<(), EngineError>)
        ensures
            r is Ok <==> self.paths_safe(),
            r matches Err(e) ==> e@ matches EngineErrorView::Protocol {
                kind: ProtocolErrorKind::InvalidTorrent,
                ..
            },
    {
        match validate_path(self.name.as_str()) {
            Err(e) => {
                return Err(e);
            },
            Ok(_) => {},
        }
        let mut i: usize = 0;
        while i < self.files.len()
            invariant
                i <= self.files.len(),
                path_is_safe(self.name@),
                forall|j: int| 0 <= j < i ==> path_is_safe((#[trigger] self.files@[j]).path@),
            decreases self.files.len() - i,
        {
            match validate_path(self.files[i].path.as_str()) {
                Err(e) => {
                    return Err(e);
                },
                Ok(_) => {},
            }
            i += 1;
        }
        Ok(())
    }
}

} // verus!
