//! Counters that sit on a cache line of their own.
use cache_padded::CachePadded;
use vstd::prelude::*;

verus! {

/// `cache_padded::CachePadded`: a value, padded and aligned to the length of a cache line.
#[verifier::external_type_specification]
#[verifier::external_body]
#[verifier::reject_recursive_types(T)]
pub struct ExCachePadded<T>(CachePadded<T>);

/// The number inside a padded counter.
pub uninterp spec fn padded_value(padded: CachePadded<usize>) -> usize;

/// `CachePadded::new`: pads a number. The number inside is the one that was given. The function
/// only moves its argument into place and does not unwind.
#[verifier::external_body]
pub(crate) fn pad(value: usize) -> (padded: CachePadded<usize>)
    ensures
        padded_value(padded) == value,
    no_unwind
{
    CachePadded::new(value)
}

/// `CachePadded::into_inner`, on a copy of the padded counter: the number inside. The function
/// only moves that number out and does not unwind.
#[verifier::external_body]
pub(crate) fn unpad(padded: &CachePadded<usize>) -> (value: usize)
    ensures
        value == padded_value(*padded),
    no_unwind
{
    padded.into_inner()
}

} // verus!
