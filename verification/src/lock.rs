//! Shared access to one value from many threads: a reader-writer lock around the
//! value, and guards that stand for the access they give.
//!
//! Nothing in this file is proved. It names the lock of `parking_lot` to Verus and
//! calls it. None of the calls promises anything of the value found under the lock:
//! between two acquisitions any other thread may have changed it.

use vstd::prelude::*;

verus! {

/// The raw reader-writer lock of `parking_lot`, `parking_lot::RawRwLock`. It only
/// stands in the type of a lock; nothing is known of it.
#[verifier::external_type_specification]
#[verifier::external_body]
pub struct ExRawRwLock(parking_lot::RawRwLock);

/// The reader-writer lock of `lock_api`, `lock_api::RwLock`, which
/// `parking_lot::RwLock` is an instance of. Nothing is known of what is inside.
#[verifier::external_type_specification]
#[verifier::external_body]
#[verifier::reject_recursive_types(R)]
#[verifier::reject_recursive_types(T)]
pub struct ExRwLock<R, T: ?Sized>(parking_lot::lock_api::RwLock<R, T>);

/// A value of type `T` under a `parking_lot` reader-writer lock.
pub type Locked<T> = parking_lot::lock_api::RwLock<parking_lot::RawRwLock, T>;

/// Shared access to a locked value. It holds a `parking_lot::RwLockReadGuard`, which
/// gives the lock back when it is dropped. Verus cannot be told of the guard type
/// itself, whose declaration is bounded by a trait of `lock_api`.
#[verifier::external_body]
#[verifier::reject_recursive_types(T)]
pub(crate) struct ReadGuard<'a, T> {
    guard: parking_lot::RwLockReadGuard<'a, T>,
}

/// Exclusive access to a locked value. It holds a `parking_lot::RwLockWriteGuard`,
/// which gives the lock back when it is dropped.
#[verifier::external_body]
#[verifier::reject_recursive_types(T)]
pub(crate) struct WriteGuard<'a, T> {
    guard: parking_lot::RwLockWriteGuard<'a, T>,
}

/// Calls `RwLock::new`, which makes an unlocked lock around `value`.
#[verifier::external_body]
pub(crate) fn new_lock<T>(value: T) -> (lock: Locked<T>) {
    parking_lot::RwLock::new(value)
}

/// Calls `RwLock::read`, which blocks until no writer holds the lock and then gives
/// shared access. It may never return if the calling thread itself already holds the
/// lock, for reading or for writing; no function of this crate locks while it holds
/// a guard, and no guard leaves the crate.
#[verifier::external_body]
pub(crate) fn read_lock<'a, T>(lock: &'a Locked<T>) -> (guard: ReadGuard<'a, T>) {
    ReadGuard { guard: lock.read() }
}

/// Calls `RwLock::write`, which blocks until nobody holds the lock and then gives
/// exclusive access. It never returns if the calling thread itself already holds the
/// lock; no function of this crate locks while it holds a guard, and no guard leaves
/// the crate.
#[verifier::external_body]
pub(crate) fn write_lock<'a, T>(lock: &'a Locked<T>) -> (guard: WriteGuard<'a, T>) {
    WriteGuard { guard: lock.write() }
}

/// Calls `Deref::deref` of the read guard, which lends the locked value. Nothing is
/// claimed of the value.
#[verifier::external_body]
pub(crate) fn shared<'a, 'b, T>(guard: &'a ReadGuard<'b, T>) -> (value: &'a T) {
    &*guard.guard
}

/// Calls `DerefMut::deref_mut` of the write guard, which lends the locked value for
/// change. Nothing is claimed of the value.
#[verifier::external_body]
pub(crate) fn exclusive<'a, 'b, T>(guard: &'a mut WriteGuard<'b, T>) -> (value: &'a mut T) {
    &mut *guard.guard
}

} // verus!
