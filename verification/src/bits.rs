use vstd::prelude::*;

verus! {

/// The ignore-hit bitset, one bit per configured ignore entry, kept in
/// bitvec's `BitVec`. Verus sees the holder opaquely; what it holds is named
/// by [`bit_contents`], and the handful of operations the engine needs are
/// trusted wrappers around bitvec's own methods.
#[verifier::external_body]
pub struct IgnoreHits {
    bits: bitvec::vec::BitVec,
}

/// The bits an [`IgnoreHits`] holds, in index order.
pub uninterp spec fn bit_contents(b: IgnoreHits) -> Seq<bool>;

/// Relies on bitvec's `BitVec::repeat`: a vector of `len` copies of `bit`.
#[verifier::external_body]
pub fn bits_repeat(bit: bool, len: usize) -> (r: IgnoreHits)
    ensures
        bit_contents(r) == Seq::new(len as nat, |i: int| bit),
{
    IgnoreHits { bits: bitvec::vec::BitVec::repeat(bit, len) }
}

/// Relies on bitvec's `BitSlice::set` (reached through `BitVec`'s deref):
/// writes the one bit at `index`, leaving the others as they were.
#[verifier::external_body]
pub fn bits_set(b: &mut IgnoreHits, index: usize, value: bool)
    requires
        index < bit_contents(*old(b)).len(),
    ensures
        bit_contents(*final(b)) == bit_contents(*old(b)).update(index as int, value),
{
    b.bits.set(index, value);
}

/// Relies on bitvec's `BitSlice::get` (reached through `BitVec`'s deref):
/// reads the one bit at `index`.
#[verifier::external_body]
pub fn bits_get(b: &IgnoreHits, index: usize) -> (r: bool)
    requires
        index < bit_contents(*b).len(),
    ensures
        r == bit_contents(*b)[index as int],
{
    match b.bits.get(index) {
        Some(bit) => *bit,
        None => false,
    }
}

} // verus!
