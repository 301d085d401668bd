//! Trusted interface to the two crossbeam-utils building blocks shared by
//! both primitives: `AtomicCell`, the raw storage cell that two threads may
//! access concurrently, and `CachePadded`, which keeps each hot atomic on
//! its own cache line to avoid false sharing.
//!
//! A cell is mutated through `&self` by whichever thread currently owns it
//! under the occupancy-flag/index-word protocol, so nothing about a cell's
//! contents can be stated as a function of the cell value itself; the
//! contracts here therefore promise nothing about the values moved through
//! a cell, and every guarantee of the library is stated over the thread-own
//! state of the handles and over the protocol models.

use vstd::prelude::*;

verus! {

/// `crossbeam_utils::atomic::AtomicCell` declared for Verus; opaque.
#[verifier::external_type_specification]
#[verifier::external_body]
#[verifier::reject_recursive_types(T)]
pub struct ExAtomicCell<T>(crossbeam_utils::atomic::AtomicCell<T>);

/// `crossbeam_utils::CachePadded` declared for Verus; opaque.
#[verifier::external_type_specification]
#[verifier::external_body]
#[verifier::reject_recursive_types(T)]
pub struct ExCachePadded<T>(crossbeam_utils::CachePadded<T>);

/// Relies on `AtomicCell::new`, which wraps a value into a fresh cell.
pub assume_specification<T>[ crossbeam_utils::atomic::AtomicCell::<T>::new ](
    val: T,
) -> crossbeam_utils::atomic::AtomicCell<T>;

/// Relies on `AtomicCell::store`, which stores `val` into the cell and
/// drops whatever value was there before.
pub assume_specification<T>[ crossbeam_utils::atomic::AtomicCell::<T>::store ](
    cell: &crossbeam_utils::atomic::AtomicCell<T>,
    val: T,
);

/// Relies on `AtomicCell::take`, which removes and returns the cell's
/// value, leaving the type's default in its place. The result depends on
/// what the other thread last stored, so nothing is promised of it.
pub assume_specification<T: Default>[ crossbeam_utils::atomic::AtomicCell::<T>::take ](
    cell: &crossbeam_utils::atomic::AtomicCell<T>,
) -> T;

/// Relies on `CachePadded::new`, which pads and aligns a value to the
/// length of a cache line.
pub assume_specification<T>[ crossbeam_utils::CachePadded::<T>::new ](
    t: T,
) -> crossbeam_utils::CachePadded<T>;

/// Relies on `CachePadded`'s `Deref` impl, which yields the padded value.
pub assume_specification<T>[ <crossbeam_utils::CachePadded<T> as core::ops::Deref>::deref ](
    padded: &crossbeam_utils::CachePadded<T>,
) -> &T;

} // verus!
