//! The set of pieces that a side of a torrent connection has, as a bit
//! vector over piece indices.

use bitvec::order::Msb0;
use bitvec::vec::BitVec;
use vstd::prelude::*;

verus! {

/// Big-endian bit vector over piece indices, kept in a `bitvec::vec::BitVec`.
#[verifier::external_body]
#[derive(Debug)]
pub struct Bitfield {
    bits: BitVec<u8, Msb0>,
}

/// The bits that a bit vector holds, in order.
pub uninterp spec fn bitfield_bits(b: Bitfield) -> Seq<bool>;

impl View for Bitfield {
    type V = Seq<bool>;

    open spec fn view(&self) -> Seq<bool> {
        bitfield_bits(*self)
    }
}

/// The longest bit vector that can be made: `BitSlice::MAX_BITS`.
pub open spec fn max_bits() -> int {
    usize::MAX as int / 8
}

/// Number of bits that are set.
pub open spec fn count_true(bits: Seq<bool>) -> nat
    decreases bits.len(),
{
    if bits.len() == 0 {
        0
    } else {
        count_true(bits.drop_last()) + if bits.last() {
            1nat
        } else {
            0nat
        }
    }
}

/// `BitVec::repeat(false, len)`: a vector of `len` cleared bits. The call
/// panics for a length above `BitSlice::MAX_BITS`.
#[verifier::external_body]
fn bits_zeroed(len: usize) -> (b: Bitfield)
    requires
        len <= max_bits(),
    ensures
        bitfield_bits(b) == Seq::new(len as nat, |i: int| false),
{
    Bitfield { bits: BitVec::repeat(false, len) }
}

/// `BitVec::len`: the number of bits, never above `BitSlice::MAX_BITS`.
#[verifier::external_body]
fn bits_len(b: &Bitfield) -> (n: usize)
    ensures
        n == bitfield_bits(*b).len(),
        n <= max_bits(),
{
    b.bits.len()
}

/// `BitSlice::get`: the bit at `index`, or nothing past the end.
#[verifier::external_body]
fn bits_get(b: &Bitfield, index: usize) -> (r: Option<bool>)
    ensures
        r == if index < bitfield_bits(*b).len() {
            Some(bitfield_bits(*b)[index as int])
        } else {
            None
        },
{
    b.bits.get(index).map(|bit| *bit)
}

/// `BitSlice::set`: writes the bit at `index` and leaves the others. The
/// call panics for an index past the end.
#[verifier::external_body]
fn bits_set(b: &mut Bitfield, index: usize, value: bool)
    requires
        index < bitfield_bits(*old(b)).len(),
    ensures
        bitfield_bits(*final(b)) == bitfield_bits(*old(b)).update(index as int, value),
{
    b.bits.set(index, value);
}

/// `BitSlice::count_ones`: the number of bits that are set.
#[verifier::external_body]
fn bits_count_ones(b: &Bitfield) -> (n: usize)
    ensures
        n == count_true(bitfield_bits(*b)),
{
    b.bits.count_ones()
}

/// `BitVec::clone`: a vector with the same bits.
#[verifier::external_body]
fn bits_clone(b: &Bitfield) -> (r: Bitfield)
    ensures
        bitfield_bits(r) == bitfield_bits(*b),
{
    Bitfield { bits: b.bits.clone() }
}

pub proof fn lemma_count_true_bounds(bits: Seq<bool>)
    ensures
        count_true(bits) <= bits.len(),
    decreases bits.len(),
{
    if bits.len() > 0 {
        lemma_count_true_bounds(bits.drop_last());
    }
}

/// Setting or clearing one bit changes the count by that bit.
pub proof fn lemma_count_true_update(bits: Seq<bool>, i: int, value: bool)
    requires
        0 <= i < bits.len(),
    ensures
        count_true(bits.update(i, value)) == count_true(bits) - (if bits[i] {
            1int
        } else {
            0int
        }) + (if value {
            1int
        } else {
            0int
        }),
    decreases bits.len(),
{
    let u = bits.update(i, value);
    if i == bits.len() - 1 {
        assert(u.drop_last() == bits.drop_last());
    } else {
        lemma_count_true_update(bits.drop_last(), i, value);
        assert(u.drop_last() == bits.drop_last().update(i, value));
    }
}

/// A vector without a set bit counts zero, and one that counts its length
/// has every bit set.
pub proof fn lemma_count_true_extremes(bits: Seq<bool>)
    ensures
        (forall|i: int| 0 <= i < bits.len() ==> !bits[i]) ==> count_true(bits) == 0,
        count_true(bits) == bits.len() <==> (forall|i: int| 0 <= i < bits.len() ==> bits[i]),
    decreases bits.len(),
{
    if bits.len() > 0 {
        let rest = bits.drop_last();
        lemma_count_true_extremes(rest);
        lemma_count_true_bounds(rest);
        if forall|i: int| 0 <= i < bits.len() ==> bits[i] {
            assert forall|i: int| 0 <= i < rest.len() implies rest[i] by {
                assert(rest[i] == bits[i]);
            }
        }
        if count_true(bits) == bits.len() {
            assert forall|i: int| 0 <= i < bits.len() implies bits[i] by {
                if i < rest.len() {
                    assert(rest[i] == bits[i]);
                }
            }
        }
        if forall|i: int| 0 <= i < bits.len() ==> !bits[i] {
            assert forall|i: int| 0 <= i < rest.len() implies !rest[i] by {
                assert(rest[i] == bits[i]);
            }
        }
    }
}

impl Clone for Bitfield {
    fn clone(&self) -> (r: Self)
        ensures
            r@ == self@,
    {
        bits_clone(self)
    }
}

impl Bitfield {
    /// A bit vector of `len` cleared bits.
    pub fn new(len: usize) -> (b: Bitfield)
        requires
            len <= max_bits(),
        ensures
            b@ == Seq::new(len as nat, |i: int| false),
    {
        bits_zeroed(len)
    }

    /// Number of bits.
    pub fn len(&self) -> (n: usize)
        ensures
            n == self@.len(),
            n <= max_bits(),
    {
        bits_len(self)
    }

    /// The bit at `index`; a bit past the end counts as cleared.
    pub fn get(&self, index: usize) -> (r: bool)
        ensures
            r == (index < self@.len() && self@[index as int]),
    {
        match bits_get(self, index) {
            Some(bit) => bit,
            None => false,
        }
    }

    /// Writes the bit at `index`; an index past the end changes nothing and
    /// is answered with `false`.
    pub fn set(&mut self, index: usize, value: bool) -> (r: bool)
        ensures
            r == (index < old(self)@.len()),
            final(self)@ == if r {
                old(self)@.update(index as int, value)
            } else {
                old(self)@
            },
    {
        if index < bits_len(self) {
            bits_set(self, index, value);
            true
        } else {
            false
        }
    }

    /// Number of bits that are set.
    pub fn count_ones(&self) -> (n: usize)
        ensures
            n == count_true(self@),
            n <= self@.len(),
    {
        proof {
            lemma_count_true_bounds(self@);
        }
        bits_count_ones(self)
    }

    /// The bit vector with the given bits.
    pub fn from_bools(bits: &Vec<bool>) -> (b: Bitfield)
        requires
            bits.len() <= max_bits(),
        ensures
            b@ == bits@,
    {
        let mut b = bits_zeroed(bits.len());
        let mut i: usize = 0;
        while i < bits.len()
            invariant
                i <= bits.len(),
                b@.len() == bits.len(),
                forall|j: int| 0 <= j < i ==> b@[j] == bits@[j],
            decreases bits.len() - i,
        {
            bits_set(&mut b, i, bits[i]);
            i += 1;
        }
        assert(b@ =~= bits@);
        b
    }

    /// The bits, in order.
    pub fn to_bools(&self) -> (bits: Vec<bool>)
        ensures
            bits@ == self@,
    {
        let n = bits_len(self);
        let mut bits: Vec<bool> = Vec::new();
        let mut i: usize = 0;
        while i < n
            invariant
                i <= n,
                n == self@.len(),
                bits@ == self@.take(i as int),
            decreases n - i,
        {
            bits.push(self.get(i));
            i += 1;
        }
        assert(self@.take(n as int) == self@);
        bits
    }
}

} // verus!
