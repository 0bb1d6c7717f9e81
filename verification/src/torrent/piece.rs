//! Piece bookkeeping: the blocks of the pieces in flight, rarest-first
//! selection, SHA-1 verification and the plan of every disk write.

use crate::config::AllocationMode;
use crate::error::{EngineError, EngineErrorView, ProtocolErrorKind};
use crate::text::{decimal, decimal_string, join2, join3};
use crate::torrent::bitfield::{
    count_true, lemma_count_true_bounds, lemma_count_true_extremes, lemma_count_true_update,
    Bitfield,
};
use crate::torrent::metainfo::{
    path_is_safe, slices_total, spec_files_for_range, Info, Metainfo, Sha1Hash,
};
use crate::torrent::BLOCK_SIZE;
use sha1::{Digest, Sha1};
use std::collections::HashMap;
use std::time::Instant;
use vstd::prelude::*;

verus! {

#[verifier::external_type_specification]
#[verifier::external_body]
pub struct ExInstant(Instant);

/// `std::time::Instant::now`: the reading of the monotonic clock.
#[verifier::external_body]
fn instant_now() -> (t: Instant) {
    Instant::now()
}

/// What SHA-1 makes of a row of bytes: its digest of 20 bytes.
pub uninterp spec fn sha1_of(data: Seq<u8>) -> Seq<u8>;

/// `sha1::Sha1::new`, `update` with the bytes and `finalize`: the SHA-1
/// digest of the bytes.
#[verifier::external_body]
pub(crate) fn sha1_digest(data: &Vec<u8>) -> (r: Sha1Hash)
    ensures
        r@ == sha1_of(data@),
{
    let mut hasher = Sha1::new();
    hasher.update(data);
    hasher.finalize().into()
}

/// Whether two digests are the same.
pub fn hash_eq(a: &Sha1Hash, b: &Sha1Hash) -> (r: bool)
    ensures
        r == (a@ == b@),
{
    let mut i: usize = 0;
    while i < 20
        invariant
            i <= 20,
            forall|j: int| 0 <= j < i ==> a@[j] == b@[j],
        decreases 20 - i,
    {
        if a[i] != b[i] {
            return false;
        }
        i += 1;
    }
    assert(a@ =~= b@);
    true
}

// ---------------------------------------------------------------------------
// Blocks of one piece
// ---------------------------------------------------------------------------

/// Number of blocks of a piece of `length` bytes.
pub open spec fn spec_num_blocks(length: int, block_size: int) -> int {
    (length + block_size - 1) / block_size
}

/// Length of block `block_index`: a full block, but for the tail of the
/// piece.
pub open spec fn expected_block_len(length: int, block_size: int, block_index: int) -> int {
    if block_size <= length - block_index * block_size {
        block_size
    } else {
        length - block_index * block_size
    }
}

/// Number of blocks that are there.
pub open spec fn received_count(blocks: Seq<Option<Vec<u8>>>) -> nat
    decreases blocks.len(),
{
    if blocks.len() == 0 {
        0
    } else {
        received_count(blocks.drop_last()) + if blocks.last() is Some {
            1nat
        } else {
            0nat
        }
    }
}

/// The bytes of the blocks that are there, in order.
pub open spec fn blocks_data(blocks: Seq<Option<Vec<u8>>>) -> Seq<u8>
    decreases blocks.len(),
{
    if blocks.len() == 0 {
        Seq::empty()
    } else {
        blocks_data(blocks.drop_last()) + match blocks.last() {
            Some(b) => b@,
            None => Seq::empty(),
        }
    }
}

pub proof fn lemma_received_bounds(blocks: Seq<Option<Vec<u8>>>)
    ensures
        received_count(blocks) <= blocks.len(),
        received_count(blocks) == blocks.len() <==> (forall|i: int|
            0 <= i < blocks.len() ==> blocks[i] is Some),
    decreases blocks.len(),
{
    if blocks.len() > 0 {
        let rest = blocks.drop_last();
        lemma_received_bounds(rest);
        if forall|i: int| 0 <= i < blocks.len() ==> blocks[i] is Some {
            assert forall|i: int| 0 <= i < rest.len() implies rest[i] is Some by {
                assert(rest[i] == blocks[i]);
            }
        }
        if received_count(blocks) == blocks.len() {
            assert forall|i: int| 0 <= i < blocks.len() implies blocks[i] is Some by {
                if i < rest.len() {
                    assert(rest[i] == blocks[i]);
                }
            }
        }
    }
}

/// Filling an empty slot counts one more block.
pub proof fn lemma_received_fill(blocks: Seq<Option<Vec<u8>>>, i: int, data: Vec<u8>)
    requires
        0 <= i < blocks.len(),
        blocks[i] is None,
    ensures
        received_count(blocks.update(i, Some(data))) == received_count(blocks) + 1,
    decreases blocks.len(),
{
    let u = blocks.update(i, Some(data));
    if i == blocks.len() - 1 {
        assert(u.drop_last() == blocks.drop_last());
    } else {
        lemma_received_fill(blocks.drop_last(), i, data);
        assert(u.drop_last() == blocks.drop_last().update(i, Some(data)));
    }
}

pub proof fn lemma_block_geometry(length: int, block_size: int, i: int)
    requires
        0 <= length,
        0 < block_size,
        0 <= i < spec_num_blocks(length, block_size),
    ensures
        0 <= i * block_size < length,
        0 < expected_block_len(length, block_size, i) <= block_size,
        i * block_size + expected_block_len(length, block_size, i) <= length,
        i == spec_num_blocks(length, block_size) - 1 ==> i * block_size + expected_block_len(
            length,
            block_size,
            i,
        ) == length,
        i < spec_num_blocks(length, block_size) - 1 ==> expected_block_len(length, block_size, i)
            == block_size,
        (i * block_size) / block_size == i,
        (i * block_size) % block_size == 0,
{
    let n = spec_num_blocks(length, block_size);
    assert((n - 1) * block_size < length && length <= n * block_size) by (nonlinear_arith)
        requires
            n == (length + block_size - 1) / block_size,
            0 < block_size,
            0 <= length,
    ;
    assert(0 <= i * block_size && i * block_size <= (n - 1) * block_size && (i < n - 1 ==> (i
        + 1) * block_size <= (n - 1) * block_size) && (i + 1) * block_size == i * block_size
        + block_size) by (nonlinear_arith)
        requires
            0 <= i <= n - 1,
            0 < block_size,
    ;
    assert((i * block_size) / block_size == i && (i * block_size) % block_size == 0) by {
        vstd::arithmetic::div_mod::lemma_div_multiples_vanish(i, block_size);
        vstd::arithmetic::div_mod::lemma_mod_multiples_basic(i, block_size);
    }
}

/// The blocks before index `k` of a piece, all there and of the expected
/// lengths, hold the first bytes of the piece.
pub proof fn lemma_blocks_data_len(blocks: Seq<Option<Vec<u8>>>, length: int, block_size: int, k: int)
    requires
        0 <= length,
        0 < block_size,
        blocks.len() == spec_num_blocks(length, block_size),
        0 <= k <= blocks.len(),
        forall|i: int|
            0 <= i < k ==> (#[trigger] blocks[i]) is Some && blocks[i]->0.len()
                == expected_block_len(length, block_size, i),
    ensures
        blocks_data(blocks.take(k)).len() == if k == blocks.len() {
            length
        } else {
            k * block_size
        },
    decreases k,
{
    if k > 0 {
        lemma_blocks_data_len(blocks, length, block_size, k - 1);
        assert(blocks.take(k).drop_last() == blocks.take(k - 1));
        assert(blocks.take(k).last() == blocks[k - 1]);
        lemma_block_geometry(length, block_size, k - 1);
        assert((k - 1) * block_size + block_size == k * block_size) by (nonlinear_arith);
    } else {
        assert(blocks.take(0) =~= Seq::empty());
        if blocks.len() == 0 {
            assert(length == 0) by (nonlinear_arith)
                requires
                    (length + block_size - 1) / block_size == 0,
                    0 <= length,
                    0 < block_size,
            ;
        }
    }
}

/// What the piece makes of a block that arrives.
#[derive(Clone, Copy, Debug, PartialEq, Eq, Structural)]
pub enum BlockCheck {
    /// The block fits an empty slot.
    Accept,
    /// The block is well formed, but its slot is full already.
    Duplicate,
    /// The offset is not aligned, lies past the piece, or the size is not
    /// the expected one.
    Malformed,
}

/// A piece that is being downloaded.
#[derive(Debug)]
pub struct PendingPiece {
    /// Piece index.
    pub index: u32,
    /// Length of the piece in bytes.
    pub length: u64,
    /// The blocks of the piece; `None` is a block that has not arrived.
    pub blocks: Vec<Option<Vec<u8>>>,
    /// Block size in use.
    pub block_size: u32,
    /// Number of blocks that have arrived.
    pub blocks_received: usize,
    /// When the download of the piece began.
    pub started_at: Instant,
    /// The blocks that were asked for, each with the peer asked.
    pub requested_blocks: HashMap<u32, usize>,
    /// Whether the assembled piece has passed its hash check.
    pub verified: bool,
}

/// One block to ask a peer for.
#[derive(Clone, Copy, Debug, PartialEq, Eq, Hash, Structural)]
pub struct BlockRequest {
    /// Piece index.
    pub piece: u32,
    /// Offset of the block within the piece.
    pub offset: u32,
    /// Length of the block.
    pub length: u32,
}

impl PendingPiece {
    pub open spec fn num_blocks(&self) -> int {
        spec_num_blocks(self.length as int, self.block_size as int)
    }

    pub open spec fn block_len(&self, block_index: int) -> int {
        expected_block_len(self.length as int, self.block_size as int, block_index)
    }

    /// The piece keeps its books: block offsets fit the protocol's 32 bits,
    /// there is one slot per block, every block that is there has the
    /// expected length, the count of received blocks is right, and only a
    /// complete piece is marked as verified.
    pub open spec fn wf(&self) -> bool {
        &&& self.block_size == BLOCK_SIZE
        &&& self.length <= u32::MAX
        &&& self.blocks.len() == self.num_blocks()
        &&& self.blocks_received == received_count(self.blocks@)
        &&& forall|i: int|
            0 <= i < self.blocks.len() ==> ((#[trigger] self.blocks@[i]) matches Some(b)
                ==> b.len() == self.block_len(i))
        &&& self.verified ==> self.blocks_received == self.blocks.len()
    }

    /// A piece none of whose blocks has arrived or been asked for.
    pub open spec fn is_fresh(&self, index: u32, length: u64) -> bool {
        &&& self.index == index
        &&& self.length == length
        &&& self.block_size == BLOCK_SIZE
        &&& self.blocks.len() == spec_num_blocks(length as int, BLOCK_SIZE as int)
        &&& forall|i: int| 0 <= i < self.blocks.len() ==> (#[trigger] self.blocks@[i]) is None
        &&& self.blocks_received == 0
        &&& self.requested_blocks@ == Map::<u32, usize>::empty()
        &&& !self.verified
    }

    pub proof fn lemma_fresh_wf(&self, index: u32, length: u64)
        requires
            self.is_fresh(index, length),
            length <= u32::MAX,
        ensures
            self.wf(),
    {
        lemma_none_count(self.blocks@);
    }

    /// A piece of `piece_length` bytes with no block yet.
    pub fn new(index: u32, piece_length: u64) -> (p: PendingPiece)
        requires
            piece_length <= u32::MAX,
        ensures
            p.is_fresh(index, piece_length),
            p.wf(),
    {
        let block_size = BLOCK_SIZE as u64;
        let num_blocks: usize = ((piece_length + block_size - 1) / block_size) as usize;
        let mut blocks: Vec<Option<Vec<u8>>> = Vec::new();
        let mut i: usize = 0;
        while i < num_blocks
            invariant
                i <= num_blocks,
                blocks.len() == i,
                forall|j: int| 0 <= j < i ==> (#[trigger] blocks@[j]) is None,
            decreases num_blocks - i,
        {
            blocks.push(None);
            i += 1;
        }
        let p = PendingPiece {
            index,
            length: piece_length,
            blocks,
            block_size: BLOCK_SIZE,
            blocks_received: 0,
            started_at: instant_now(),
            requested_blocks: HashMap::new(),
            verified: false,
        };
        proof {
            p.lemma_fresh_wf(index, piece_length);
        }
        p
    }

    /// What the piece makes of a block of `len` bytes at `offset`.
    pub open spec fn spec_check_block(&self, offset: u32, len: int) -> BlockCheck {
        let idx = offset as int / self.block_size as int;
        if offset as int % self.block_size as int != 0 || idx >= self.blocks.len() || len
            != self.block_len(idx) {
            BlockCheck::Malformed
        } else if self.blocks@[idx] is Some {
            BlockCheck::Duplicate
        } else {
            BlockCheck::Accept
        }
    }

    /// Classifies a block of `len` bytes at `offset`: it is accepted if the
    /// offset is aligned to the block size, the size is
    /// `min(block_size, length - offset)` and the slot is still empty.
    pub fn check_block(&self, offset: u32, len: usize) -> (r: BlockCheck)
        requires
            self.wf(),
        ensures
            r == self.spec_check_block(offset, len as int),
    {
        let idx: usize = (offset / self.block_size) as usize;
        if offset % self.block_size != 0 || idx >= self.blocks.len() {
            return BlockCheck::Malformed;
        }
        proof {
            lemma_block_geometry(self.length as int, self.block_size as int, idx as int);
            assert(idx * self.block_size == offset) by (nonlinear_arith)
                requires
                    idx == offset as int / self.block_size as int,
                    offset as int % self.block_size as int == 0,
                    self.block_size > 0,
            ;
        }
        let remaining: u64 = self.length - offset as u64;
        let expected: u64 = if remaining < self.block_size as u64 {
            remaining
        } else {
            self.block_size as u64
        };
        if len as u64 != expected {
            return BlockCheck::Malformed;
        }
        match &self.blocks[idx] {
            Some(_) => BlockCheck::Duplicate,
            None => BlockCheck::Accept,
        }
    }

    /// Takes in a block that arrived. A duplicate or malformed block is
    /// refused and changes nothing.
    pub fn add_block(&mut self, offset: u32, data: Vec<u8>) -> (r: bool)
        requires
            old(self).wf(),
        ensures
            final(self).wf(),
            r == (old(self).spec_check_block(offset, data.len() as int) is Accept),
            !r ==> *final(self) == *old(self),
            r ==> {
                let idx = offset as int / old(self).block_size as int;
                &&& final(self).blocks@ == old(self).blocks@.update(idx, Some(data))
                &&& final(self).blocks_received == old(self).blocks_received + 1
                &&& final(self).requested_blocks@ == old(self).requested_blocks@.remove(idx as u32)
                &&& final(self).index == old(self).index
                &&& final(self).length == old(self).length
                &&& final(self).block_size == old(self).block_size
                &&& final(self).started_at == old(self).started_at
                &&& final(self).verified == old(self).verified
            },
    {
        broadcast use vstd::std_specs::hash::group_hash_axioms;

        match self.check_block(offset, data.len()) {
            BlockCheck::Accept => {},
            _ => {
                return false;
            },
        }
        let idx: usize = (offset / self.block_size) as usize;
        proof {
            lemma_received_fill(self.blocks@, idx as int, data);
            lemma_received_bounds(self.blocks@);
            lemma_received_bounds(self.blocks@.update(idx as int, Some(data)));
        }
        self.blocks.set(idx, Some(data));
        self.blocks_received = self.blocks_received + 1;
        self.requested_blocks.remove(&(idx as u32));
        true
    }

    pub open spec fn spec_is_complete(&self) -> bool {
        self.blocks_received == self.blocks.len()
    }

    /// Whether every block has arrived.
    #[verifier::when_used_as_spec(spec_is_complete)]
    pub fn is_complete(&self) -> (r: bool)
        ensures
            r == self.spec_is_complete(),
    {
        self.blocks_received == self.blocks.len()
    }

    /// The bytes of a complete piece: its blocks in order, cut to the length
    /// of the piece.
    pub fn data(&self) -> (r: Option<Vec<u8>>)
        requires
            self.wf(),
        ensures
            r is Some <==> self.spec_is_complete(),
            r matches Some(d) ==> d@ == blocks_data(self.blocks@) && d.len() == self.length,
    {
        if !self.is_complete() {
            return None;
        }
        proof {
            lemma_received_bounds(self.blocks@);
        }
        let mut data: Vec<u8> = Vec::new();
        let mut i: usize = 0;
        while i < self.blocks.len()
            invariant
                i <= self.blocks.len(),
                forall|j: int| 0 <= j < self.blocks.len() ==> self.blocks@[j] is Some,
                data@ == blocks_data(self.blocks@.take(i as int)),
            decreases self.blocks.len() - i,
        {
            assert(self.blocks@.take(i + 1).drop_last() == self.blocks@.take(i as int));
            assert(self.blocks@.take(i + 1).last() == self.blocks@[i as int]);
            match &self.blocks[i] {
                Some(b) => {
                    let mut k: usize = 0;
                    let ghost before = data@;
                    while k < b.len()
                        invariant
                            k <= b.len(),
                            data@ == before + b@.take(k as int),
                        decreases b.len() - k,
                    {
                        data.push(b[k]);
                        assert(b@.take(k + 1) == b@.take(k as int).push(b@[k as int]));
                        k += 1;
                    }
                    assert(b@.take(b.len() as int) == b@);
                },
                None => {},
            }
            i += 1;
        }
        proof {
            assert(self.blocks@.take(self.blocks.len() as int) == self.blocks@);
            lemma_blocks_data_len(
                self.blocks@,
                self.length as int,
                self.block_size as int,
                self.blocks.len() as int,
            );
        }
        Some(data)
    }

    /// The request for block `i`, if the block is neither there nor asked
    /// for.
    pub open spec fn unrequested_at(&self, i: int) -> Option<(u32, u32)> {
        if self.blocks@[i] is None && !self.requested_blocks@.contains_key(i as u32) {
            Some(((i * self.block_size) as u32, self.block_len(i) as u32))
        } else {
            None
        }
    }

    /// `(offset, length)` of every block before index `k` that is neither
    /// there nor asked for.
    pub open spec fn spec_unrequested(&self, k: int) -> Seq<(u32, u32)>
        decreases k,
    {
        if k <= 0 {
            Seq::empty()
        } else {
            match self.unrequested_at(k - 1) {
                Some(r) => self.spec_unrequested(k - 1).push(r),
                None => self.spec_unrequested(k - 1),
            }
        }
    }

    /// `(offset, length)` of every block that is neither there nor asked
    /// for, in order.
    pub fn unrequested_blocks(&self) -> (r: Vec<(u32, u32)>)
        requires
            self.wf(),
        ensures
            r@ == self.spec_unrequested(self.blocks.len() as int),
    {
        broadcast use vstd::std_specs::hash::group_hash_axioms;

        let mut out: Vec<(u32, u32)> = Vec::new();
        let n = self.blocks.len();
        let mut i: usize = 0;
        while i < n
            invariant
                i <= n,
                n == self.blocks.len(),
                self.wf(),
                out@ == self.spec_unrequested(i as int),
            decreases n - i,
        {
            proof {
                lemma_block_geometry(self.length as int, self.block_size as int, i as int);
            }
            if self.blocks[i].is_none() && !self.requested_blocks.contains_key(&(i as u32)) {
                let offset: u32 = (i as u32) * self.block_size;
                let remaining: u64 = self.length - offset as u64;
                let length: u32 = if remaining < self.block_size as u64 {
                    remaining as u32
                } else {
                    self.block_size
                };
                out.push((offset, length));
            }
            i += 1;
        }
        out
    }

    /// Notes that block `block_index` was asked of `peer_id`.
    pub fn mark_requested(&mut self, block_index: u32, peer_id: usize)
        ensures
            final(self).requested_blocks@ == old(self).requested_blocks@.insert(
                block_index,
                peer_id,
            ),
            final(self).index == old(self).index,
            final(self).length == old(self).length,
            final(self).blocks == old(self).blocks,
            final(self).block_size == old(self).block_size,
            final(self).blocks_received == old(self).blocks_received,
            final(self).started_at == old(self).started_at,
            final(self).verified == old(self).verified,
            old(self).wf() ==> final(self).wf(),
    {
        broadcast use vstd::std_specs::hash::group_hash_axioms;

        self.requested_blocks.insert(block_index, peer_id);
    }
}

pub proof fn lemma_none_count(blocks: Seq<Option<Vec<u8>>>)
    requires
        forall|i: int| 0 <= i < blocks.len() ==> (#[trigger] blocks[i]) is None,
    ensures
        received_count(blocks) == 0,
    decreases blocks.len(),
{
    if blocks.len() > 0 {
        lemma_none_count(blocks.drop_last());
    }
}

// ---------------------------------------------------------------------------
// All pieces of one torrent
// ---------------------------------------------------------------------------

/// Progress of a torrent, in pieces and bytes.
#[derive(Clone, Copy, Debug, PartialEq, Eq, Structural)]
pub struct PieceProgress {
    /// Total number of pieces.
    pub total_pieces: usize,
    /// Number of pieces that are verified.
    pub have_pieces: usize,
    /// Number of pieces in flight.
    pub pending_pieces: usize,
    /// Bytes of the verified pieces.
    pub verified_bytes: u64,
    /// Total size of all files.
    pub total_size: u64,
}

impl PieceProgress {
    pub open spec fn spec_bytes_remaining(&self) -> u64 {
        if self.verified_bytes >= self.total_size {
            0
        } else {
            (self.total_size - self.verified_bytes) as u64
        }
    }

    /// Bytes that are still to be verified.
    #[verifier::when_used_as_spec(spec_bytes_remaining)]
    pub fn bytes_remaining(&self) -> (r: u64)
        ensures
            r == self.spec_bytes_remaining(),
    {
        if self.verified_bytes >= self.total_size {
            0
        } else {
            self.total_size - self.verified_bytes
        }
    }

    /// Verified pieces in thousandths of all pieces, rounded down and kept
    /// within `u64`; zero for a torrent without pieces.
    pub fn permille(&self) -> (r: u64)
        ensures
            r == if self.total_pieces == 0 {
                0
            } else if self.have_pieces as int * 1000 / self.total_pieces as int > u64::MAX {
                u64::MAX as int
            } else {
                self.have_pieces as int * 1000 / self.total_pieces as int
            },
    {
        if self.total_pieces == 0 {
            0
        } else {
            let r: u128 = (self.have_pieces as u128) * 1000 / (self.total_pieces as u128);
            if r > u64::MAX as u128 {
                u64::MAX
            } else {
                r as u64
            }
        }
    }
}

/// One write of a piece's bytes into one file.
#[derive(Clone, Copy, Debug, PartialEq, Eq, Structural)]
pub struct WriteSlice {
    /// Index of the file in the torrent.
    pub file_index: usize,
    /// Where in the file the bytes go.
    pub file_offset: u64,
    /// Where in the piece the bytes begin.
    pub data_offset: u64,
    /// Number of bytes.
    pub length: u64,
}

/// The writes for the slices of a piece: each begins in the piece where
/// the one before ends.
pub open spec fn spec_write_plan(slices: Seq<(usize, u64, u64)>) -> Seq<WriteSlice>
    decreases slices.len(),
{
    if slices.len() == 0 {
        Seq::empty()
    } else {
        spec_write_plan(slices.drop_last()).push(
            WriteSlice {
                file_index: slices.last().0,
                file_offset: slices.last().1,
                data_offset: slices_total(slices.drop_last()) as u64,
                length: slices.last().2,
            },
        )
    }
}

/// What the hash check of an assembled piece found.
#[derive(Debug)]
pub enum Verdict {
    /// The digest differs: the piece was dropped.
    Mismatch,
    /// The digest matches: `data` is to be written as `slices` say, then
    /// the piece is to be committed.
    Verified { data: Vec<u8>, slices: Vec<WriteSlice> },
}

/// Bytes of the verified pieces among the first `k`.
pub open spec fn have_bytes(info: Info, have: Seq<bool>, k: int) -> int
    decreases k,
{
    if k <= 0 {
        0
    } else {
        have_bytes(info, have, k - 1) + if have[k - 1] {
            info.spec_piece_length(k - 1).unwrap() as int
        } else {
            0
        }
    }
}

pub proof fn lemma_have_bytes_bound(info: Info, have: Seq<bool>, k: int)
    requires
        info.wf(),
        have.len() == info.pieces.len(),
        0 <= k <= have.len(),
    ensures
        0 <= have_bytes(info, have, k) <= info.total_size,
        k > 0 ==> have_bytes(info, have, k) <= info.piece_end(k - 1),
    decreases k,
{
    if k > 0 {
        lemma_have_bytes_bound(info, have, k - 1);
        info.lemma_piece_bounds(k - 1);
        if k > 1 {
            info.lemma_piece_bounds(k - 2);
            assert(info.piece_end(k - 2) <= info.piece_start(k - 1)) by (nonlinear_arith)
                requires
                    info.piece_end(k - 2) <= (k - 2 + 1) * info.piece_length,
                    info.piece_start(k - 1) == (k - 1) * info.piece_length,
            ;
        }
    }
}

/// Marking piece `i` adds its length to the verified bytes if it was not
/// marked before.
pub proof fn lemma_have_bytes_update(info: Info, have: Seq<bool>, i: int, k: int)
    requires
        0 <= i < have.len(),
        0 <= k <= have.len(),
    ensures
        have_bytes(info, have.update(i, true), k) == have_bytes(info, have, k) + if i < k
            && !have[i] {
            info.spec_piece_length(i).unwrap() as int
        } else {
            0
        },
    decreases k,
{
    if k > 0 {
        lemma_have_bytes_update(info, have, i, k - 1);
    }
}

pub proof fn lemma_have_bytes_zero(info: Info, have: Seq<bool>, k: int)
    requires
        0 <= k <= have.len(),
        forall|i: int| 0 <= i < have.len() ==> !have[i],
    ensures
        have_bytes(info, have, k) == 0,
    decreases k,
{
    if k > 0 {
        lemma_have_bytes_zero(info, have, k - 1);
    }
}

/// The indices below `k` of the pieces that are not verified, in order.
pub open spec fn missing_pieces(have: Seq<bool>, k: int) -> Seq<u32>
    decreases k,
{
    if k <= 0 {
        Seq::empty()
    } else if have[k - 1] {
        missing_pieces(have, k - 1)
    } else {
        missing_pieces(have, k - 1).push((k - 1) as u32)
    }
}

/// A counter of peers after one more, kept at its maximum.
pub open spec fn sat_inc(n: u32) -> u32 {
    if n < u32::MAX {
        (n + 1) as u32
    } else {
        n
    }
}

/// A counter of peers after one less, kept at zero.
pub open spec fn sat_dec(n: u32) -> u32 {
    if n > 0 {
        (n - 1) as u32
    } else {
        n
    }
}

/// Number of unverified pieces at which endgame begins.
pub const ENDGAME_THRESHOLD: usize = 10;

/// Each slice lies in a file of the torrent.
pub open spec fn slices_in_files(info: Info, slices: Seq<(usize, u64, u64)>) -> bool {
    forall|i: int| 0 <= i < slices.len() ==> (#[trigger] slices[i]).0 < info.files.len()
}

/// The slices of piece `index` of a torrent; none for an unknown piece.
pub open spec fn slices_of(info: Info, index: u32) -> Seq<(usize, u64, u64)> {
    if index < info.pieces.len() {
        spec_files_for_range(info.files@, info.piece_start(index as int), info.piece_end(index as int))
    } else {
        Seq::empty()
    }
}

/// The writes for a list of slices: each begins in the piece where the one
/// before ends.
fn write_plan(slices: &Vec<(usize, u64, u64)>) -> (plan: Vec<WriteSlice>)
    requires
        slices_total(slices@) <= u64::MAX,
    ensures
        plan@ == spec_write_plan(slices@),
{
    let mut plan: Vec<WriteSlice> = Vec::new();
    let mut data_offset: u64 = 0;
    let mut i: usize = 0;
    while i < slices.len()
        invariant
            i <= slices.len(),
            slices_total(slices@) <= u64::MAX,
            data_offset == slices_total(slices@.take(i as int)),
            plan@ == spec_write_plan(slices@.take(i as int)),
        decreases slices.len() - i,
    {
        let slice = slices[i];
        proof {
            assert(slices@.take(i + 1).drop_last() == slices@.take(i as int));
            assert(slices@.take(i + 1).last() == slices@[i as int]);
            lemma_slices_prefix(slices@, i + 1);
        }
        plan.push(
            WriteSlice {
                file_index: slice.0,
                file_offset: slice.1,
                data_offset,
                length: slice.2,
            },
        );
        data_offset = data_offset + slice.2;
        i += 1;
    }
    assert(slices@.take(slices.len() as int) == slices@);
    plan
}

/// The writes that lay piece `index` of a torrent out over its files. A
/// torrent with an unsafe path anywhere, in its name or in the path of any
/// of its files, has no plan for any piece.
fn plan_slices(metainfo: &Metainfo, index: u32) -> (r: Result<Vec<WriteSlice>, EngineError>)
    requires
        metainfo.wf(),
    ensures
        r is Ok <==> metainfo.info.paths_safe(),
        slices_in_files(metainfo.info, slices_of(metainfo.info, index)),
        r matches Ok(plan) ==> plan@ == spec_write_plan(slices_of(metainfo.info, index)),
        r matches Err(e) ==> e@ matches EngineErrorView::Protocol {
            kind: ProtocolErrorKind::InvalidTorrent,
            ..
        },
{
    let slices = metainfo.files_for_piece(index as usize);
    proof {
        if index < metainfo.info.pieces.len() {
            lemma_slice_indices(
                metainfo.info.files@,
                metainfo.info.piece_start(index as int),
                metainfo.info.piece_end(index as int),
            );
            metainfo.info.lemma_piece_bounds(index as int);
        } else {
            assert(slices@ =~= Seq::empty());
        }
        assert(slices@ == slices_of(metainfo.info, index));
        lemma_slices_nonneg(slices@);
    }
    match metainfo.info.validate_paths() {
        Err(e) => {
            return Err(e);
        },
        Ok(_) => {},
    }
    Ok(write_plan(&slices))
}

/// Piece manager of one torrent.
#[derive(Debug)]
pub struct PieceManager {
    pub metainfo: Metainfo,
    pub save_dir: String,
    /// The pieces that are verified.
    pub have: Bitfield,
    /// The pieces in flight.
    pub pending: HashMap<u32, PendingPiece>,
    /// Number of verified pieces.
    pub verified_count: u64,
    /// Bytes of the verified pieces.
    pub verified_bytes: u64,
    /// For each piece, the number of connected peers that have it.
    pub piece_availability: Vec<u32>,
}

impl PieceManager {
    pub open spec fn info(&self) -> Info {
        self.metainfo.info
    }

    pub open spec fn spec_num_pieces(&self) -> int {
        self.metainfo.info.pieces.len() as int
    }

    /// The digest of the assembled blocks of a pending piece is the one the
    /// torrent expects.
    pub open spec fn hash_matches(&self, piece: PendingPiece) -> bool {
        piece.index < self.spec_num_pieces() && sha1_of(blocks_data(piece.blocks@))
            == self.info().pieces@[piece.index as int]@
    }

    /// The books of the manager are in order: there is one bit and one
    /// availability count per piece; every pending piece is a piece of the
    /// torrent, well formed, and marked as verified only if its digest is
    /// the expected one; the counters are those of the verified pieces.
    pub open spec fn wf(&self) -> bool {
        &&& self.metainfo.wf()
        &&& self.have@.len() == self.spec_num_pieces()
        &&& self.piece_availability.len() == self.spec_num_pieces()
        &&& forall|k: u32| #[trigger]
            self.pending@.contains_key(k) ==> {
                let p = self.pending@[k];
                &&& k < self.spec_num_pieces()
                &&& p.wf()
                &&& p.index == k
                &&& Some(p.length) == self.info().spec_piece_length(k as int)
                &&& (p.verified ==> self.hash_matches(p))
            }
        &&& self.verified_count == count_true(self.have@)
        &&& self.verified_bytes == have_bytes(self.info(), self.have@, self.spec_num_pieces())
    }

    /// A manager for a torrent of which nothing is there yet.
    pub fn new(metainfo: Metainfo, save_dir: String) -> (m: PieceManager)
        requires
            metainfo.wf(),
        ensures
            m.wf(),
            m.metainfo == metainfo,
            m.save_dir == save_dir,
            m.have@ == Seq::new(metainfo.info.pieces.len() as nat, |i: int| false),
            m.pending@ == Map::<u32, PendingPiece>::empty(),
            m.verified_count == 0,
            m.verified_bytes == 0,
            m.piece_availability@ == Seq::new(metainfo.info.pieces.len() as nat, |i: int| 0u32),
    {
        let n = metainfo.num_pieces();
        let have = Bitfield::new(n);
        let mut availability: Vec<u32> = Vec::new();
        let mut i: usize = 0;
        while i < n
            invariant
                i <= n,
                availability@ == Seq::new(i as nat, |j: int| 0u32),
            decreases n - i,
        {
            availability.push(0);
            assert(availability@ =~= Seq::new((i + 1) as nat, |j: int| 0u32));
            i += 1;
        }
        proof {
            lemma_count_true_extremes(have@);
            lemma_have_bytes_zero(metainfo.info, have@, n as int);
        }
        PieceManager {
            metainfo,
            save_dir,
            have,
            pending: HashMap::new(),
            verified_count: 0,
            verified_bytes: 0,
            piece_availability: availability,
        }
    }

    /// Number of pieces.
    pub fn num_pieces(&self) -> (n: usize)
        ensures
            n == self.spec_num_pieces(),
    {
        self.metainfo.num_pieces()
    }

    /// Whether piece `index` is verified.
    pub fn have_piece(&self, index: usize) -> (r: bool)
        ensures
            r == (index < self.have@.len() && self.have@[index as int]),
    {
        self.have.get(index)
    }

    pub open spec fn spec_need_piece(&self, index: u32) -> bool {
        &&& index < self.spec_num_pieces()
        &&& !self.have@[index as int]
        &&& !self.pending@.contains_key(index)
    }

    /// Whether piece `index` is a piece of the torrent that is neither
    /// verified nor in flight.
    pub fn need_piece(&self, index: u32) -> (r: bool)
        requires
            self.wf(),
        ensures
            r == self.spec_need_piece(index),
    {
        broadcast use vstd::std_specs::hash::group_hash_axioms;

        if index as usize >= self.num_pieces() {
            return false;
        }
        !self.have.get(index as usize) && !self.pending.contains_key(&index)
    }

    /// The verified pieces as a bit vector.
    pub fn bitfield(&self) -> (r: Bitfield)
        ensures
            r@ == self.have@,
    {
        self.have.clone()
    }

    /// The availability counts after a peer with the pieces `peer` came
    /// (`add`) or went.
    pub open spec fn spec_availability_after(&self, peer: Seq<bool>, add: bool) -> Seq<u32> {
        Seq::new(
            self.piece_availability.len() as nat,
            |i: int|
                if i < peer.len() && peer[i] {
                    if add {
                        sat_inc(self.piece_availability@[i])
                    } else {
                        sat_dec(self.piece_availability@[i])
                    }
                } else {
                    self.piece_availability@[i]
                },
        )
    }

    /// Counts a peer's pieces in (`add`) or out of the availability of each
    /// piece; the counts saturate.
    pub fn update_availability(&mut self, peer_pieces: &Bitfield, add: bool)
        ensures
            final(self).piece_availability@ == old(self).spec_availability_after(
                peer_pieces@,
                add,
            ),
            final(self).metainfo == old(self).metainfo,
            final(self).save_dir == old(self).save_dir,
            final(self).have == old(self).have,
            final(self).pending == old(self).pending,
            final(self).verified_count == old(self).verified_count,
            final(self).verified_bytes == old(self).verified_bytes,
            old(self).wf() ==> final(self).wf(),
    {
        let n = self.piece_availability.len();
        let ghost before = self.piece_availability@;
        let mut i: usize = 0;
        while i < n
            invariant
                i <= n,
                n == before.len(),
                self.piece_availability.len() == n,
                before == old(self).piece_availability@,
                forall|j: int|
                    0 <= j < i ==> self.piece_availability@[j] == old(self).spec_availability_after(peer_pieces@, add)[j],
                forall|j: int| i <= j < n ==> self.piece_availability@[j] == before[j],
                self.metainfo == old(self).metainfo,
                self.save_dir == old(self).save_dir,
                self.have == old(self).have,
                self.pending == old(self).pending,
                self.verified_count == old(self).verified_count,
                self.verified_bytes == old(self).verified_bytes,
            decreases n - i,
        {
            if peer_pieces.get(i) {
                let count = self.piece_availability[i];
                let next = if add {
                    if count < u32::MAX {
                        count + 1
                    } else {
                        count
                    }
                } else {
                    if count > 0 {
                        count - 1
                    } else {
                        count
                    }
                };
                self.piece_availability.set(i, next);
            }
            i += 1;
        }
        assert(self.piece_availability@ =~= old(self).spec_availability_after(
            peer_pieces@,
            add,
        ));
    }

    /// Piece `i` is one we lack, that is not in flight and that the peer
    /// has.
    pub open spec fn is_candidate(&self, peer_has: Seq<bool>, i: int) -> bool {
        &&& 0 <= i < self.spec_num_pieces()
        &&& !self.have@[i]
        &&& !self.pending@.contains_key(i as u32)
        &&& i < peer_has.len()
        &&& peer_has[i]
    }

    /// Piece `i` is a candidate that no candidate is rarer than, and the
    /// first such.
    pub open spec fn is_rarest(&self, peer_has: Seq<bool>, i: int) -> bool {
        &&& self.is_candidate(peer_has, i)
        &&& forall|j: int| #[trigger]
            self.is_candidate(peer_has, j) ==> self.piece_availability@[i]
                < self.piece_availability@[j] || (self.piece_availability@[i]
                == self.piece_availability@[j] && i <= j)
    }

    /// The next piece to ask the peer for, rarest first; among equally rare
    /// pieces the one with the lowest index.
    pub fn select_piece(&self, peer_has: &Bitfield) -> (r: Option<u32>)
        requires
            self.wf(),
        ensures
            match r {
                Some(i) => self.is_rarest(peer_has@, i as int),
                None => forall|j: int| !self.is_candidate(peer_has@, j),
            },
    {
        broadcast use vstd::std_specs::hash::group_hash_axioms;

        let n = self.num_pieces();
        let mut best: Option<u32> = None;
        let mut i: usize = 0;
        while i < n
            invariant
                i <= n,
                n == self.spec_num_pieces(),
                self.wf(),
                match best {
                    Some(b) => {
                        &&& b < i
                        &&& self.is_candidate(peer_has@, b as int)
                        &&& forall|j: int|
                            0 <= j < i && #[trigger] self.is_candidate(peer_has@, j)
                                ==> self.piece_availability@[b as int]
                                < self.piece_availability@[j] || (
                            self.piece_availability@[b as int] == self.piece_availability@[j] && b
                                <= j)
                    },
                    None => forall|j: int| 0 <= j < i ==> !self.is_candidate(peer_has@, j),
                },
            decreases n - i,
        {
            if !self.have.get(i) && !self.pending.contains_key(&(i as u32)) && peer_has.get(i) {
                match best {
                    Some(b) => {
                        if self.piece_availability[i] < self.piece_availability[b as usize] {
                            best = Some(i as u32);
                        }
                    },
                    None => {
                        best = Some(i as u32);
                    },
                }
            }
            i += 1;
        }
        best
    }

    /// Begins the download of piece `index`: a fresh pending piece takes the
    /// place of any earlier one, and a copy of it is handed out.
    pub fn start_piece(&mut self, index: u32) -> (r: Option<PendingPiece>)
        requires
            old(self).wf(),
        ensures
            final(self).wf(),
            r is Some <==> index < old(self).spec_num_pieces(),
            r is None ==> *final(self) == *old(self),
            r matches Some(p) ==> {
                let len = old(self).info().spec_piece_length(index as int).unwrap();
                &&& p.is_fresh(index, len)
                &&& final(self).pending@.dom() == old(self).pending@.dom().insert(index)
                &&& final(self).pending@[index].is_fresh(index, len)
                &&& forall|k: u32|
                    k != index && old(self).pending@.contains_key(k) ==> final(self).pending@[k]
                        == old(self).pending@[k]
                &&& final(self).metainfo == old(self).metainfo
                &&& final(self).save_dir == old(self).save_dir
                &&& final(self).have == old(self).have
                &&& final(self).verified_count == old(self).verified_count
                &&& final(self).verified_bytes == old(self).verified_bytes
                &&& final(self).piece_availability == old(self).piece_availability
            },
    {
        broadcast use vstd::std_specs::hash::group_hash_axioms;

        let piece_length = match self.metainfo.piece_length(index as usize) {
            Some(l) => l,
            None => {
                return None;
            },
        };
        let piece = PendingPiece::new(index, piece_length);
        let copy = PendingPiece::new(index, piece_length);
        self.pending.insert(index, piece);
        assert(final(self).pending@.dom() =~= old(self).pending@.dom().insert(index)) by {
            assert(self.pending@.dom() =~= old(self).pending@.dom().insert(index));
        }
        Some(copy)
    }

    /// What `add_block` answers for a block of piece `index`: a block for
    /// a verified piece, and a duplicate within a piece in flight, are
    /// silently passed over; a block for a piece that is not in flight or
    /// a malformed block is a protocol error.
    pub open spec fn spec_add_block(&self, index: u32, offset: u32, len: int) -> Result<
        BlockCheck,
        EngineErrorView,
    > {
        if index < self.spec_num_pieces() && self.have@[index as int] {
            Ok(BlockCheck::Duplicate)
        } else if !self.pending@.contains_key(index) {
            Err(
                EngineErrorView::Protocol {
                    kind: ProtocolErrorKind::PeerProtocol,
                    message: "Received block for unknown piece "@ + decimal(index as nat),
                },
            )
        } else {
            match self.pending@[index].spec_check_block(offset, len) {
                BlockCheck::Malformed => Err(
                    EngineErrorView::Protocol {
                        kind: ProtocolErrorKind::PeerProtocol,
                        message: "Invalid block offset "@ + decimal(offset as nat)
                            + " for piece "@ + decimal(index as nat),
                    },
                ),
                check => Ok(check),
            }
        }
    }

    /// Takes in a block of piece `index` and says whether the piece is now
    /// complete.
    pub fn add_block(&mut self, index: u32, offset: u32, data: Vec<u8>) -> (r: Result<
        bool,
        EngineError,
    >)
        requires
            old(self).wf(),
        ensures
            final(self).wf(),
            final(self).have@ == old(self).have@,
            final(self).metainfo == old(self).metainfo,
            final(self).save_dir == old(self).save_dir,
            final(self).verified_count == old(self).verified_count,
            final(self).verified_bytes == old(self).verified_bytes,
            final(self).piece_availability == old(self).piece_availability,
            final(self).pending@.dom() == old(self).pending@.dom(),
            forall|k: u32|
                k != index && old(self).pending@.contains_key(k) ==> final(self).pending@[k] == old(self).pending@[k],
            match (r, old(self).spec_add_block(index, offset, data.len() as int)) {
                (Err(e), Err(expected)) => e@ == expected && final(self).pending@ == old(self).pending@,
                (Ok(done), Ok(BlockCheck::Accept)) => {
                    let before = old(self).pending@[index];
                    let after = final(self).pending@[index];
                    &&& after.blocks@ == before.blocks@.update(
                        offset as int / BLOCK_SIZE as int,
                        Some(data),
                    )
                    &&& after.blocks_received == before.blocks_received + 1
                    &&& done == after.spec_is_complete()
                },
                (Ok(done), Ok(BlockCheck::Duplicate)) => {
                    &&& final(self).pending@ == old(self).pending@
                    &&& done == (old(self).pending@.contains_key(index) && old(self).pending@[index].spec_is_complete())
                },
                _ => false,
            },
    {
        broadcast use vstd::std_specs::hash::group_hash_axioms;

        if self.have.get(index as usize) {
            let done = match self.pending.get(&index) {
                Some(p) => p.is_complete(),
                None => false,
            };
            return Ok(done);
        }
        let check = match self.pending.get(&index) {
            Some(p) => p.check_block(offset, data.len()),
            None => {
                let number = decimal_string(index as u64);
                return Err(
                    EngineError::protocol(
                        ProtocolErrorKind::PeerProtocol,
                        join2("Received block for unknown piece ", number.as_str()),
                    ),
                );
            },
        };
        match check {
            BlockCheck::Malformed => {
                let at = decimal_string(offset as u64);
                let number = decimal_string(index as u64);
                let head = join3("Invalid block offset ", at.as_str(), " for piece ");
                return Err(
                    EngineError::protocol(
                        ProtocolErrorKind::PeerProtocol,
                        join2(head.as_str(), number.as_str()),
                    ),
                );
            },
            BlockCheck::Duplicate => {
                let done = match self.pending.get(&index) {
                    Some(p) => p.is_complete(),
                    None => false,
                };
                return Ok(done);
            },
            BlockCheck::Accept => {},
        }
        let mut piece = match self.pending.remove(&index) {
            Some(p) => p,
            None => {
                return Ok(false);
            },
        };
        let ghost before = piece;
        let ghost data_bytes = blocks_data(piece.blocks@);
        proof {
            lemma_received_bounds(piece.blocks@);
        }
        piece.add_block(offset, data);
        let done = piece.is_complete();
        self.pending.insert(index, piece);
        proof {
            assert(self.pending@.dom() =~= old(self).pending@.dom());
            assert(!before.verified) by {
                let idx = offset as int / BLOCK_SIZE as int;
                assert(before.blocks@[idx] is None);
            }
        }
        Ok(done)
    }

    /// Drops piece `index` from the pieces in flight.
    pub fn cancel_piece(&mut self, index: u32)
        requires
            old(self).wf(),
        ensures
            final(self).wf(),
            final(self).pending@ == old(self).pending@.remove(index),
            final(self).have == old(self).have,
            final(self).metainfo == old(self).metainfo,
            final(self).save_dir == old(self).save_dir,
            final(self).verified_count == old(self).verified_count,
            final(self).verified_bytes == old(self).verified_bytes,
            final(self).piece_availability == old(self).piece_availability,
    {
        broadcast use vstd::std_specs::hash::group_hash_axioms;

        self.pending.remove(&index);
    }

    /// Notes that a block of a piece in flight was asked of a peer.
    pub fn mark_block_requested(&mut self, piece: u32, block_index: u32, peer_id: usize)
        requires
            old(self).wf(),
        ensures
            final(self).wf(),
            final(self).have == old(self).have,
            final(self).metainfo == old(self).metainfo,
            final(self).save_dir == old(self).save_dir,
            final(self).verified_count == old(self).verified_count,
            final(self).verified_bytes == old(self).verified_bytes,
            final(self).piece_availability == old(self).piece_availability,
            final(self).pending@.dom() == old(self).pending@.dom(),
            !old(self).pending@.contains_key(piece) ==> final(self).pending@ == old(self).pending@,
            old(self).pending@.contains_key(piece) ==> final(self).pending@[piece].requested_blocks@ == old(self).pending@[piece].requested_blocks@.insert(block_index, peer_id) && final(self).pending@[piece].blocks == old(self).pending@[piece].blocks,
            forall|k: u32|
                k != piece && old(self).pending@.contains_key(k) ==> final(self).pending@[k] == old(self).pending@[k],
    {
        broadcast use vstd::std_specs::hash::group_hash_axioms;

        match self.pending.remove(&piece) {
            Some(p) => {
                let mut p = p;
                p.mark_requested(block_index, peer_id);
                self.pending.insert(piece, p);
                assert(self.pending@.dom() =~= old(self).pending@.dom());
            },
            None => {
                assert(self.pending@ =~= old(self).pending@);
            },
        }
    }

    /// The blocks of piece `index` that are to be asked for: those that are
    /// neither there nor asked for; none for a piece that is not in flight.
    pub fn get_block_requests(&self, index: u32) -> (r: Vec<BlockRequest>)
        requires
            self.wf(),
        ensures
            !self.pending@.contains_key(index) ==> r@.len() == 0,
            self.pending@.contains_key(index) ==> r@ == self.pending@[index].spec_unrequested(
                self.pending@[index].blocks.len() as int,
            ).map_values(
                |b: (u32, u32)| BlockRequest { piece: index, offset: b.0, length: b.1 },
            ),
    {
        broadcast use vstd::std_specs::hash::group_hash_axioms;

        let mut out: Vec<BlockRequest> = Vec::new();
        match self.pending.get(&index) {
            Some(piece) => {
                let blocks = piece.unrequested_blocks();
                let mut i: usize = 0;
                while i < blocks.len()
                    invariant
                        i <= blocks.len(),
                        out@ == blocks@.take(i as int).map_values(
                            |b: (u32, u32)| BlockRequest { piece: index, offset: b.0, length: b.1 },
                        ),
                    decreases blocks.len() - i,
                {
                    let b = blocks[i];
                    out.push(BlockRequest { piece: index, offset: b.0, length: b.1 });
                    assert(out@ =~= blocks@.take(i + 1).map_values(
                        |b: (u32, u32)| BlockRequest { piece: index, offset: b.0, length: b.1 },
                    ));
                    i += 1;
                }
                assert(blocks@.take(blocks.len() as int) == blocks@);
            },
            None => {},
        }
        out
    }

    pub open spec fn spec_progress(&self) -> PieceProgress {
        PieceProgress {
            total_pieces: self.metainfo.info.pieces.len(),
            have_pieces: count_true(self.have@) as usize,
            pending_pieces: self.pending@.len() as usize,
            verified_bytes: self.verified_bytes,
            total_size: self.metainfo.info.total_size,
        }
    }

    /// Progress in pieces and bytes.
    pub fn progress(&self) -> (r: PieceProgress)
        ensures
            r == self.spec_progress(),
    {
        broadcast use vstd::std_specs::hash::group_hash_axioms;

        PieceProgress {
            total_pieces: self.num_pieces(),
            have_pieces: self.have.count_ones(),
            pending_pieces: self.pending.len(),
            verified_bytes: self.verified_bytes,
            total_size: self.metainfo.info.total_size,
        }
    }

    pub open spec fn spec_is_complete(&self) -> bool {
        forall|i: int| 0 <= i < self.have@.len() ==> self.have@[i]
    }

    /// Whether every piece is verified.
    pub fn is_complete(&self) -> (r: bool)
        requires
            self.wf(),
        ensures
            r == self.spec_is_complete(),
    {
        proof {
            lemma_count_true_extremes(self.have@);
        }
        self.have.count_ones() == self.num_pieces()
    }

    /// The pieces that endgame asks every peer for: all unverified pieces
    /// once no more than `ENDGAME_THRESHOLD` are left, none before.
    pub fn endgame_pieces(&self) -> (r: Vec<u32>)
        requires
            self.wf(),
        ensures
            r@ == if missing_pieces(self.have@, self.have@.len() as int).len()
                <= ENDGAME_THRESHOLD {
                missing_pieces(self.have@, self.have@.len() as int)
            } else {
                Seq::empty()
            },
    {
        let n = self.num_pieces();
        let mut remaining: Vec<u32> = Vec::new();
        let mut i: usize = 0;
        while i < n
            invariant
                i <= n,
                n == self.have@.len(),
                n <= u32::MAX,
                remaining@ == missing_pieces(self.have@, i as int),
            decreases n - i,
        {
            if !self.have.get(i) {
                remaining.push(i as u32);
            }
            i += 1;
        }
        if remaining.len() <= ENDGAME_THRESHOLD {
            remaining
        } else {
            Vec::new()
        }
    }

    /// The slices of piece `index`; none for an unknown piece.
    pub open spec fn spec_slices(&self, index: u32) -> Seq<(usize, u64, u64)> {
        slices_of(self.info(), index)
    }

    /// The writes (or reads) that lay piece `index` out over the files, in
    /// order. A torrent with an unsafe path anywhere, in its name or in the
    /// path of any of its files, is invalid as a whole: no plan is made for
    /// any of its pieces, so that none of its files is created. Every plan
    /// that is made names files of the torrent only, each with a safe path.
    pub fn piece_slices(&self, index: u32) -> (r: Result<Vec<WriteSlice>, EngineError>)
        requires
            self.wf(),
        ensures
            r is Ok <==> self.info().paths_safe(),
            slices_in_files(self.info(), self.spec_slices(index)),
            r matches Ok(plan) ==> forall|i: int|
                0 <= i < plan@.len() ==> (#[trigger] plan@[i]).file_index < self.info().files.len()
                    && path_is_safe(self.info().files@[plan@[i].file_index as int].path@),
            r matches Ok(plan) ==> plan@ == spec_write_plan(self.spec_slices(index)),
            r matches Err(e) ==> e@ matches EngineErrorView::Protocol {
                kind: ProtocolErrorKind::InvalidTorrent,
                ..
            },
    {
        let r = plan_slices(&self.metainfo, index);
        proof {
            lemma_plan_files(self.spec_slices(index));
        }
        r
    }

    /// What `verify_piece` answers and leaves behind for piece `index`.
    pub open spec fn spec_verify(
        &self,
        index: u32,
        r: Result<Verdict, EngineError>,
        after: PieceManager,
    ) -> bool {
        if !self.pending@.contains_key(index) {
            &&& r matches Err(e)
            &&& e@ == (EngineErrorView::Protocol {
                kind: ProtocolErrorKind::PeerProtocol,
                message: "Piece "@ + decimal(index as nat) + " not found in pending"@,
            })
            &&& after.pending@ == self.pending@
        } else if !self.pending@[index].spec_is_complete() {
            &&& r matches Err(e)
            &&& e@ == (EngineErrorView::Protocol {
                kind: ProtocolErrorKind::PeerProtocol,
                message: "Piece "@ + decimal(index as nat) + " is incomplete"@,
            })
            &&& after.pending@ == self.pending@
        } else if !self.hash_matches(self.pending@[index]) {
            &&& r matches Ok(Verdict::Mismatch)
            &&& after.pending@ == self.pending@.remove(index)
        } else if !self.info().paths_safe() {
            &&& r matches Err(e)
            &&& e@ matches EngineErrorView::Protocol {
                kind: ProtocolErrorKind::InvalidTorrent,
                ..
            }
            &&& after.pending@ == self.pending@
        } else {
            &&& r matches Ok(Verdict::Verified { data, slices })
            &&& data@ == blocks_data(self.pending@[index].blocks@)
            &&& sha1_of(data@) == self.info().pieces@[index as int]@
            &&& slices@ == spec_write_plan(self.spec_slices(index))
            &&& after.pending@.dom() == self.pending@.dom()
            &&& after.pending@[index].verified
            &&& after.pending@[index].blocks == self.pending@[index].blocks
            &&& after.pending@[index].length == self.pending@[index].length
            &&& forall|k: u32|
                k != index && self.pending@.contains_key(k) ==> after.pending@[k]
                    == self.pending@[k]
        }
    }

    /// Checks the assembled piece `index` against its SHA-1. A piece whose
    /// digest differs is dropped, with no word on the peers. A piece whose
    /// digest matches is marked as verified and handed out with the plan of
    /// its writes; the caller writes it and then commits it. No verified
    /// bit changes here.
    pub fn verify_piece(&mut self, index: u32) -> (r: Result<Verdict, EngineError>)
        requires
            old(self).wf(),
        ensures
            final(self).wf(),
            old(self).spec_verify(index, r, *final(self)),
            final(self).have == old(self).have,
            final(self).metainfo == old(self).metainfo,
            final(self).save_dir == old(self).save_dir,
            final(self).verified_count == old(self).verified_count,
            final(self).verified_bytes == old(self).verified_bytes,
            final(self).piece_availability == old(self).piece_availability,
    {
        broadcast use vstd::std_specs::hash::group_hash_axioms;

        let data = match self.pending.get(&index) {
            None => {
                let number = decimal_string(index as u64);
                return Err(
                    EngineError::protocol(
                        ProtocolErrorKind::PeerProtocol,
                        join3("Piece ", number.as_str(), " not found in pending"),
                    ),
                );
            },
            Some(piece) => match piece.data() {
                None => {
                    let number = decimal_string(index as u64);
                    return Err(
                        EngineError::protocol(
                            ProtocolErrorKind::PeerProtocol,
                            join3("Piece ", number.as_str(), " is incomplete"),
                        ),
                    );
                },
                Some(d) => d,
            },
        };
        let actual = sha1_digest(&data);
        let matches = match self.metainfo.piece_hash(index as usize) {
            Some(expected) => hash_eq(&actual, expected),
            None => false,
        };
        if !matches {
            self.pending.remove(&index);
            return Ok(Verdict::Mismatch);
        }
        let slices = match self.piece_slices(index) {
            Ok(s) => s,
            Err(e) => {
                return Err(e);
            },
        };
        match self.pending.remove(&index) {
            Some(p) => {
                let mut piece = p;
                piece.verified = true;
                self.pending.insert(index, piece);
                assert(self.pending@.dom() =~= old(self).pending@.dom());
            },
            None => {},
        }
        Ok(Verdict::Verified { data, slices })
    }

    /// Piece `index` is in flight and has passed its hash check.
    pub open spec fn ready_to_commit(&self, index: u32) -> bool {
        self.pending@.contains_key(index) && self.pending@[index].verified
    }

    /// Marks piece `index` as verified once its bytes are on disk. Only a
    /// piece in flight that has passed its hash check is marked; anything
    /// else changes nothing and is answered with `false`. A verified bit is
    /// never cleared.
    pub fn commit_piece(&mut self, index: u32) -> (r: bool)
        requires
            old(self).wf(),
        ensures
            final(self).wf(),
            r == old(self).ready_to_commit(index),
            !r ==> *final(self) == *old(self),
            r ==> {
                &&& sha1_of(blocks_data(old(self).pending@[index].blocks@)) == old(self).info().pieces@[index as int]@
                &&& final(self).have@ == old(self).have@.update(index as int, true)
                &&& final(self).pending@ == old(self).pending@.remove(index)
                &&& final(self).verified_bytes == old(self).verified_bytes + if old(self).have@[index as int] {
                    0
                } else {
                    old(self).pending@[index].length as int
                }
                &&& final(self).verified_count == old(self).verified_count + if old(self).have@[index as int] {
                    0int
                } else {
                    1int
                }
                &&& final(self).metainfo == old(self).metainfo
                &&& final(self).save_dir == old(self).save_dir
                &&& final(self).piece_availability == old(self).piece_availability
            },
            forall|i: int|
                0 <= i < old(self).have@.len() && old(self).have@[i] ==> final(self).have@[i],
    {
        broadcast use vstd::std_specs::hash::group_hash_axioms;

        let length = match self.pending.get(&index) {
            Some(p) => {
                if !p.verified {
                    return false;
                }
                p.length
            },
            None => {
                return false;
            },
        };
        self.pending.remove(&index);
        self.mark_have(index as usize, length);
        true
    }

    /// Sets the bit of piece `index`, whose length is `length`, and counts
    /// the piece unless it was counted before.
    fn mark_have(&mut self, index: usize, length: u64)
        requires
            old(self).metainfo.wf(),
            old(self).have@.len() == old(self).spec_num_pieces(),
            index < old(self).spec_num_pieces(),
            Some(length) == old(self).info().spec_piece_length(index as int),
            old(self).verified_count == count_true(old(self).have@),
            old(self).verified_bytes == have_bytes(
                old(self).info(),
                old(self).have@,
                old(self).spec_num_pieces(),
            ),
        ensures
            final(self).have@ == old(self).have@.update(index as int, true),
            final(self).verified_count == count_true(final(self).have@),
            final(self).verified_bytes == have_bytes(
                final(self).info(),
                final(self).have@,
                final(self).spec_num_pieces(),
            ),
            final(self).verified_bytes == old(self).verified_bytes + if old(self).have@[index as int] {
                0
            } else {
                length as int
            },
            final(self).verified_count == old(self).verified_count + if old(self).have@[index as int] {
                0int
            } else {
                1int
            },
            final(self).metainfo == old(self).metainfo,
            final(self).save_dir == old(self).save_dir,
            final(self).pending == old(self).pending,
            final(self).piece_availability == old(self).piece_availability,
    {
        let was = self.have.get(index);
        proof {
            let n = self.spec_num_pieces();
            let after = self.have@.update(index as int, true);
            lemma_count_true_update(self.have@, index as int, true);
            lemma_count_true_bounds(after);
            lemma_have_bytes_update(self.info(), self.have@, index as int, n);
            lemma_have_bytes_bound(self.info(), after, n);
            if was {
                assert(after =~= self.have@);
            }
        }
        self.have.set(index, true);
        if !was {
            self.verified_count = self.verified_count + 1;
            self.verified_bytes = self.verified_bytes + length;
        }
    }

    /// The bytes are those of piece `index` of the torrent.
    pub open spec fn is_piece_data(&self, index: u32, data: Seq<u8>) -> bool {
        &&& index < self.spec_num_pieces()
        &&& Some(data.len() as u64) == self.info().spec_piece_length(index as int)
        &&& sha1_of(data) == self.info().pieces@[index as int]@
    }

    /// Checks bytes that were read from disk for piece `index` against the
    /// piece's SHA-1 and marks the piece as verified if they match. Bytes
    /// that do not match change nothing: the piece is absent, not an error.
    pub fn check_existing(&mut self, index: u32, data: &Vec<u8>) -> (r: bool)
        requires
            old(self).wf(),
        ensures
            final(self).wf(),
            r == old(self).is_piece_data(index, data@),
            !r ==> *final(self) == *old(self),
            r ==> {
                &&& final(self).have@ == old(self).have@.update(index as int, true)
                &&& final(self).verified_bytes == old(self).verified_bytes + if old(self).have@[index as int] {
                    0
                } else {
                    data.len() as int
                }
                &&& final(self).pending == old(self).pending
                &&& final(self).metainfo == old(self).metainfo
                &&& final(self).save_dir == old(self).save_dir
                &&& final(self).piece_availability == old(self).piece_availability
            },
            forall|i: int|
                0 <= i < old(self).have@.len() && old(self).have@[i] ==> final(self).have@[i],
    {
        let length = match self.metainfo.piece_length(index as usize) {
            Some(l) => l,
            None => {
                return false;
            },
        };
        if data.len() as u64 != length {
            return false;
        }
        let actual = sha1_digest(data);
        let matches = match self.metainfo.piece_hash(index as usize) {
            Some(expected) => hash_eq(&actual, expected),
            None => false,
        };
        if !matches {
            return false;
        }
        self.mark_have(index as usize, length);
        true
    }

    /// The requests for the missing blocks of the pieces in flight with an
    /// index below `k`, by piece and block.
    pub open spec fn spec_endgame_requests(&self, k: int) -> Seq<BlockRequest>
        decreases k,
    {
        if k <= 0 {
            Seq::empty()
        } else {
            self.spec_endgame_requests(k - 1) + if self.pending@.contains_key((k - 1) as u32) {
                missing_blocks(
                    self.pending@[(k - 1) as u32],
                    self.pending@[(k - 1) as u32].blocks.len() as int,
                )
            } else {
                Seq::empty()
            }
        }
    }

    /// Every block of a piece in flight that has not arrived, asked for or
    /// not: in endgame each of them may be asked of several peers.
    pub fn endgame_requests(&self) -> (r: Vec<BlockRequest>)
        requires
            self.wf(),
        ensures
            r@ == self.spec_endgame_requests(self.spec_num_pieces()),
    {
        broadcast use vstd::std_specs::hash::group_hash_axioms;

        let n = self.num_pieces();
        let mut out: Vec<BlockRequest> = Vec::new();
        let mut k: usize = 0;
        while k < n
            invariant
                k <= n,
                n == self.spec_num_pieces(),
                self.wf(),
                out@ == self.spec_endgame_requests(k as int),
            decreases n - k,
        {
            match self.pending.get(&(k as u32)) {
                Some(piece) => {
                    let ghost before = out@;
                    let m = piece.blocks.len();
                    let mut i: usize = 0;
                    assert(before + missing_blocks(*piece, 0) == before);
                    while i < m
                        invariant
                            i <= m,
                            m == piece.blocks.len(),
                            piece.wf(),
                            out@ == before + missing_blocks(*piece, i as int),
                        decreases m - i,
                    {
                        proof {
                            lemma_block_geometry(
                                piece.length as int,
                                piece.block_size as int,
                                i as int,
                            );
                        }
                        if piece.blocks[i].is_none() {
                            let offset: u32 = (i as u32) * piece.block_size;
                            let remaining: u64 = piece.length - offset as u64;
                            let length: u32 = if remaining < piece.block_size as u64 {
                                remaining as u32
                            } else {
                                piece.block_size
                            };
                            out.push(BlockRequest { piece: piece.index, offset, length });
                            assert(out@ == before + missing_blocks(*piece, i + 1));
                        }
                        i += 1;
                    }
                },
                None => {
                    assert(out@ + Seq::<BlockRequest>::empty() == out@);
                },
            }
            k += 1;
        }
        out
    }
}

/// The requests for the blocks before index `k` of a piece that have not
/// arrived.
pub open spec fn missing_blocks(piece: PendingPiece, k: int) -> Seq<BlockRequest>
    decreases k,
{
    if k <= 0 {
        Seq::empty()
    } else if piece.blocks@[k - 1] is None {
        missing_blocks(piece, k - 1).push(
            BlockRequest {
                piece: piece.index,
                offset: ((k - 1) * piece.block_size) as u32,
                length: piece.block_len(k - 1) as u32,
            },
        )
    } else {
        missing_blocks(piece, k - 1)
    }
}

/// Every slice of a byte range names a file of the list and has a length
/// of its own.
pub proof fn lemma_slice_indices(files: Seq<crate::torrent::metainfo::FileInfo>, start: int, end: int)
    ensures
        forall|i: int|
            0 <= i < spec_files_for_range(files, start, end).len() ==> (
            #[trigger] spec_files_for_range(files, start, end)[i]).0 < files.len(),
    decreases files.len(),
{
    if files.len() > 0 {
        lemma_slice_indices(files.drop_last(), start, end);
        let all = spec_files_for_range(files, start, end);
        let rest = spec_files_for_range(files.drop_last(), start, end);
        assert forall|i: int| 0 <= i < all.len() implies (#[trigger] all[i]).0 < files.len() by {
            if i < rest.len() {
                assert(all[i] == rest[i]);
            }
        }
    }
}

/// The first `k` slices are no longer than all of them.
pub proof fn lemma_slices_prefix(slices: Seq<(usize, u64, u64)>, k: int)
    requires
        0 <= k <= slices.len(),
    ensures
        0 <= slices_total(slices.take(k)) <= slices_total(slices),
    decreases slices.len() - k,
{
    lemma_slices_nonneg(slices.take(k));
    if k == slices.len() {
        assert(slices.take(k) == slices);
    } else {
        lemma_slices_prefix(slices, k + 1);
        assert(slices.take(k + 1).drop_last() == slices.take(k));
    }
}

/// A plan has one write for each slice, into the file of the slice.
pub proof fn lemma_plan_files(slices: Seq<(usize, u64, u64)>)
    ensures
        spec_write_plan(slices).len() == slices.len(),
        forall|i: int|
            0 <= i < slices.len() ==> (#[trigger] spec_write_plan(slices)[i]).file_index
                == slices[i].0,
    decreases slices.len(),
{
    if slices.len() > 0 {
        lemma_plan_files(slices.drop_last());
        assert forall|i: int| 0 <= i < slices.len() implies (#[trigger] spec_write_plan(
            slices,
        )[i]).file_index == slices[i].0 by {
            if i < slices.len() - 1 {
                assert(spec_write_plan(slices)[i] == spec_write_plan(slices.drop_last())[i]);
                assert(slices.drop_last()[i] == slices[i]);
            }
        }
    }
}

pub proof fn lemma_slices_nonneg(slices: Seq<(usize, u64, u64)>)
    ensures
        slices_total(slices) >= 0,
    decreases slices.len(),
{
    if slices.len() > 0 {
        lemma_slices_nonneg(slices.drop_last());
    }
}

// ---------------------------------------------------------------------------
// Files on disk
// ---------------------------------------------------------------------------

impl PieceManager {
    /// The components of the path of file `file_index`: the save directory
    /// and the name of the torrent, and in multi-file mode the path of the
    /// file below them.
    pub open spec fn spec_target(&self, file_index: usize) -> Seq<Seq<char>> {
        if self.info().is_single_file || file_index >= self.info().files.len() {
            seq![self.save_dir@, self.info().name@]
        } else {
            seq![self.save_dir@, self.info().name@, self.info().files@[file_index as int].path@]
        }
    }

    /// The components of the path of file `file_index`, for the caller to
    /// join with the separator of the platform.
    pub fn target_path_parts(&self, file_index: usize) -> (r: Vec<String>)
        ensures
            crate::types::strings_view(r@) == self.spec_target(file_index),
    {
        let mut parts: Vec<String> = Vec::new();
        parts.push(self.save_dir.clone());
        parts.push(self.metainfo.info.name.clone());
        if !self.metainfo.info.is_single_file && file_index < self.metainfo.info.files.len() {
            parts.push(self.metainfo.info.files[file_index].path.clone());
        }
        assert(crate::types::strings_view(parts@) =~= self.spec_target(file_index));
        parts
    }
}

/// What is done to a file of a torrent before data arrives.
#[derive(Clone, Copy, Debug, PartialEq, Eq, Structural)]
pub enum AllocationStep {
    /// The file stays as it is.
    Leave,
    /// The file is extended to `length` bytes without writing data.
    Extend { length: u64 },
    /// Zeros are written from byte `from` up to `length` bytes.
    Fill { from: u64, length: u64 },
}

/// What the allocation mode asks for a file of `length` bytes of which
/// `have` bytes are on disk: nothing without allocation or for a file that
/// is long enough, else the full length, sparse or filled.
pub fn allocation_step(mode: AllocationMode, have: u64, length: u64) -> (r: AllocationStep)
    ensures
        r == if mode == AllocationMode::Unallocated || have >= length {
            AllocationStep::Leave
        } else if mode == AllocationMode::Full {
            AllocationStep::Fill { from: have, length }
        } else {
            AllocationStep::Extend { length }
        },
{
    if have >= length {
        return AllocationStep::Leave;
    }
    match mode {
        AllocationMode::Unallocated => AllocationStep::Leave,
        AllocationMode::Full => AllocationStep::Fill { from: have, length },
        AllocationMode::Sparse => AllocationStep::Extend { length },
    }
}

} // verus!
