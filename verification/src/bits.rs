//! Trusted boundary around the `fixedbitset` crate, which stores the grid's
//! cells as a packed bit array. Each item here states, without proof, what one
//! `fixedbitset` operation does; everything else in the crate is verified
//! against these contracts.

use vstd::prelude::*;

use fixedbitset::FixedBitSet;

verus! {

#[verifier::external_type_specification]
#[verifier::external_body]
pub struct ExFixedBitSet(FixedBitSet);

/// The bits a `FixedBitSet` holds, in index order: `true` for a set bit.
pub uninterp spec fn bits_of(s: FixedBitSet) -> Seq<bool>;

/// Relies on `FixedBitSet::with_capacity`: makes a set of `bits` bits, all
/// initially clear.
pub assume_specification[ FixedBitSet::with_capacity ](bits: usize) -> (r: FixedBitSet)
    ensures
        bits_of(r).len() == bits,
        forall|i: int| 0 <= i < bits ==> !bits_of(r)[i],
;

/// Relies on `FixedBitSet::len`: the number of bits the set holds.
pub assume_specification[ FixedBitSet::len ](s: &FixedBitSet) -> (r: usize)
    ensures
        r == bits_of(*s).len(),
;

/// Relies on `FixedBitSet::contains`: whether the bit at `bit` is set.
/// Within bounds it reads the stored bit (out of bounds it returns `false`).
pub assume_specification[ FixedBitSet::contains ](s: &FixedBitSet, bit: usize) -> (r: bool)
    requires
        bit < bits_of(*s).len(),
    ensures
        r == bits_of(*s)[bit as int],
;

/// Relies on `FixedBitSet::set`: writes `enabled` at `bit`, leaving every
/// other bit alone. It panics out of bounds, which the precondition excludes.
pub assume_specification[ FixedBitSet::set ](s: &mut FixedBitSet, bit: usize, enabled: bool)
    requires
        bit < bits_of(*old(s)).len(),
    ensures
        bits_of(*final(s)) == bits_of(*old(s)).update(bit as int, enabled),
;

/// Relies on `FixedBitSet::toggle`: inverts the bit at `bit`, leaving every
/// other bit alone. It panics out of bounds, which the precondition excludes.
pub assume_specification[ FixedBitSet::toggle ](s: &mut FixedBitSet, bit: usize)
    requires
        bit < bits_of(*old(s)).len(),
    ensures
        bits_of(*final(s)) == bits_of(*old(s)).update(bit as int, !bits_of(*old(s))[bit as int]),
;

/// Relies on `<FixedBitSet as Clone>::clone`: the copy holds the same bits.
pub assume_specification[ <FixedBitSet as Clone>::clone ](s: &FixedBitSet) -> (r: FixedBitSet)
    ensures
        bits_of(r) == bits_of(*s),
;

/// Relies on `FixedBitSet::as_slice`: exposes the backing storage as `u32`
/// words, 32 bits per word, least-significant bit first, bit `i` in word
/// `i / 32` at position `i % 32`.
pub assume_specification[ FixedBitSet::as_slice ](s: &FixedBitSet) -> (r: &[u32])
    ensures
        r@.len() == (bits_of(*s).len() + 31) / 32,
        forall|i: int|
            0 <= i < bits_of(*s).len() ==> bits_of(*s)[i] == ((r@[i / 32] >> ((i % 32) as u32))
                & 1 == 1),
;

} // verus!
