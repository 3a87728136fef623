//! Sets of up to 128 buffers, kept as the bits of a `u128` through `bittle`.
//!
//! Bit `i` is the bit of value `1 << i`; an index of 128 or more wraps
//! around, as the shift in `bittle` does.

use bittle::{Bits, BitsMut};
use vstd::prelude::*;

verus! {

/// The mask of the bit at `index`, which wraps around at 128.
pub open spec fn bit_mask(index: u32) -> u128 {
    1u128 << (index % 128)
}

/// Whether the bit at `index` is set in `set`.
pub open spec fn has_bit(set: u128, index: u32) -> bool {
    set & bit_mask(index) != 0
}

/// Whether `index` is set in `set`.
///
/// Calls `Bits::test_bit` of `bittle` on a `u128`, which tests the bit of
/// the mask `1 << index`, the shift wrapping at 128.
#[verifier::external_body]
pub(crate) fn test_bit(set: u128, index: u32) -> (r: bool)
    ensures
        r == has_bit(set, index),
{
    set.test_bit(index)
}

/// Set the bit at `index`.
///
/// Calls `BitsMut::set_bit` of `bittle` on a `u128`, which ors in the mask
/// `1 << index`, the shift wrapping at 128.
#[verifier::external_body]
pub(crate) fn set_bit(set: &mut u128, index: u32)
    ensures
        *final(set) == *old(set) | bit_mask(index),
{
    set.set_bit(index)
}

/// Clear the bit at `index`.
///
/// Calls `BitsMut::clear_bit` of `bittle` on a `u128`, which ands in the
/// complement of the mask `1 << index`, the shift wrapping at 128.
#[verifier::external_body]
pub(crate) fn clear_bit(set: &mut u128, index: u32)
    ensures
        *final(set) == *old(set) & !bit_mask(index),
{
    set.clear_bit(index)
}

/// The lowest index whose bit is clear, if any.
///
/// Calls `Bits::iter_zeros` of `bittle` on a `u128` and takes the first
/// item: `None` when every bit is set, else the number of trailing ones.
#[verifier::external_body]
pub(crate) fn first_zero(set: u128) -> (r: Option<u32>)
    ensures
        r is None <==> set == u128::MAX,
        r matches Some(i) ==> {
            &&& i < 128
            &&& !has_bit(set, i)
            &&& forall|j: u32| j < i ==> #[trigger] has_bit(set, j)
        },
{
    set.iter_zeros().next()
}

/// The indices whose bits are set, in increasing order.
///
/// Calls `Bits::iter_ones` of `bittle` on a `u128`, which yields the
/// trailing zeros of what is left and then clears that bit, so the indices
/// come out increasing.
#[verifier::external_body]
pub(crate) fn ones(set: u128) -> (r: Vec<u32>)
    ensures
        forall|k: int| 0 <= k < r.len() ==> r[k] < 128 && has_bit(set, #[trigger] r[k]),
        forall|k: int, l: int| 0 <= k < l < r.len() ==> r[k] < r[l],
        forall|i: u32| i < 128 && #[trigger] has_bit(set, i) ==> r@.contains(i),
{
    set.iter_ones().collect()
}

/// Setting a bit sets exactly that bit.
pub proof fn lemma_set_bit(set: u128, index: u32, other: u32)
    ensures
        has_bit(set | bit_mask(index), other) == (has_bit(set, other) || index % 128 == other
            % 128),
{
    let a = index % 128;
    let b = other % 128;
    assert(a < 128 && b < 128);
    assert((set | (1u128 << a)) & (1u128 << b) != 0 <==> (set & (1u128 << b) != 0 || a == b))
        by (bit_vector)
        requires
            a < 128,
            b < 128,
    ;
}

/// Clearing a bit clears exactly that bit.
pub proof fn lemma_clear_bit(set: u128, index: u32, other: u32)
    ensures
        has_bit(set & !bit_mask(index), other) == (has_bit(set, other) && index % 128 != other
            % 128),
{
    let a = index % 128;
    let b = other % 128;
    assert(a < 128 && b < 128);
    assert((set & !(1u128 << a)) & (1u128 << b) != 0 <==> (set & (1u128 << b) != 0 && a != b))
        by (bit_vector)
        requires
            a < 128,
            b < 128,
    ;
}

/// No bit is set in the empty set.
pub proof fn lemma_empty(index: u32)
    ensures
        !has_bit(0, index),
{
    let a = index % 128;
    assert(0u128 & (1u128 << a) == 0) by (bit_vector);
}

/// Indices that agree modulo 128 name the same bit.
pub proof fn lemma_same_bit(set: u128, index: u32, other: u32)
    requires
        index % 128 == other % 128,
    ensures
        has_bit(set, index) == has_bit(set, other),
{
}

} // verus!
