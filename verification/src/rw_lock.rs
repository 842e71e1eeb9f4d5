//! The reader-writer lock that lets several handles share one filesystem.
//!
//! The lock holds a filesystem that satisfies its invariant. Whoever takes
//! the lock sees such a filesystem, and whoever takes it for writing leaves
//! one behind: that is all a holder knows of the state, because between
//! two holds any other holder may have changed it.

use crate::traits::file_system::UniFs;
use std::sync::Arc;
use vstd::prelude::*;

verus! {

/// `lock_api::RwLock`, the lock that `parking_lot::RwLock` is an instance
/// of. Nothing is assumed of its values.
#[verifier::external_type_specification]
#[verifier::external_body]
#[verifier::reject_recursive_types(R)]
#[verifier::reject_recursive_types(T)]
pub struct ExRwLock<R, T: ?Sized>(parking_lot::lock_api::RwLock<R, T>);

/// `parking_lot::RawRwLock`, the raw lock inside `parking_lot::RwLock`.
/// Nothing is assumed of its values.
#[verifier::external_type_specification]
#[verifier::external_body]
pub struct ExRawRwLock(parking_lot::RawRwLock);

/// A reader-writer lock around a filesystem.
#[verifier::reject_recursive_types(T)]
pub struct FsLock<T: UniFs>(parking_lot::RwLock<T>);

/// `f` returned `r` when it was run on some filesystem that satisfied its
/// invariant.
pub open spec fn ran_on_shared<T: UniFs, R, F: FnOnce(&T) -> R>(f: F, r: R) -> bool {
    exists|fs: &T| fs.inv() && call_ensures(f, (fs,), r)
}

/// `f` returned `r` when it was run, with the right to change it, on some
/// filesystem that satisfied its invariant.
pub open spec fn ran_on_exclusive<T: UniFs, R, F: FnOnce(&mut T) -> R>(f: F, r: R) -> bool {
    exists|fs: &mut T| fs.inv() && call_ensures(f, (fs,), r)
}

impl<T: UniFs> FsLock<T> {
    /// `parking_lot::RwLock::new`: a lock that holds `value`.
    #[verifier::external_body]
    pub(crate) fn new(value: T) -> (lock: Self)
        requires
            value.inv(),
    {
        FsLock(parking_lot::RwLock::new(value))
    }

    /// `parking_lot::RwLock::read`: waits until no writer holds the lock,
    /// then runs `f` on the filesystem inside while holding the lock for
    /// reading, and releases it. The filesystem that `f` sees satisfies its
    /// invariant; which one it is depends on what other holders did.
    /// `f` must not take this lock again.
    #[verifier::external_body]
    pub(crate) fn read<R, F: FnOnce(&T) -> R>(&self, f: F) -> (r: R)
        requires
            forall|fs: &T| fs.inv() ==> call_requires(f, (fs,)),
        ensures
            ran_on_shared(f, r),
    {
        let guard = self.0.read();
        f(&*guard)
    }

    /// `parking_lot::RwLock::write`: waits until nobody else holds the
    /// lock, then runs `f` on the filesystem inside while holding the lock
    /// for writing, and releases it. The filesystem that `f` gets satisfies
    /// its invariant, and `f` must leave one that does; which one it gets
    /// depends on what other holders did. `f` must not take this lock
    /// again.
    #[verifier::external_body]
    pub(crate) fn write<R, F: FnOnce(&mut T) -> R>(&self, f: F) -> (r: R)
        requires
            forall|fs: &mut T| fs.inv() ==> call_requires(f, (fs,)),
            forall|fs: &mut T, out: R| fs.inv() && call_ensures(f, (fs,), out) ==> final(fs).inv(),
        ensures
            ran_on_exclusive(f, r),
    {
        let mut guard = self.0.write();
        f(&mut *guard)
    }
}

/// `Arc::clone`: another pointer to the same lock.
#[verifier::external_body]
pub(crate) fn share<T: UniFs>(lock: &Arc<FsLock<T>>) -> (r: Arc<FsLock<T>>)
    ensures
        r == *lock,
{
    Arc::clone(lock)
}

} // verus!
