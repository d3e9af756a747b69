//! What the pool uses of `std::sync`.
//!
//! Nothing is known of a value behind a lock: another thread may have changed
//! it since it was last seen. The declarations below therefore promise
//! nothing about what a guard gives access to, and the code that locks works
//! for whatever it finds. A lock is only ever tried, never waited for: who
//! holds a lock cannot be said in a contract, and a thread that waits for a
//! lock of its own never comes back.
use std::sync::LockResult;
use std::sync::Mutex;
use std::sync::MutexGuard;
use std::sync::PoisonError;
use std::sync::TryLockError;
use vstd::prelude::*;

verus! {

/// `std::sync::Mutex`, as an opaque type.
#[verifier::external_type_specification]
#[verifier::external_body]
#[verifier::reject_recursive_types(T)]
pub struct ExMutex<T: ?Sized>(Mutex<T>);

/// `std::sync::MutexGuard`, as an opaque type.
#[verifier::external_type_specification]
#[verifier::external_body]
#[verifier::reject_recursive_types(T)]
pub struct ExMutexGuard<'a, T: ?Sized + 'a>(MutexGuard<'a, T>);

/// `std::sync::PoisonError`, as an opaque type.
#[verifier::external_type_specification]
#[verifier::external_body]
#[verifier::reject_recursive_types(T)]
pub struct ExPoisonError<T>(PoisonError<T>);

/// `Mutex::new` puts `value` behind a new lock. Nothing is claimed of the
/// mutex it returns.
pub assume_specification<T>[ Mutex::<T>::new ](value: T) -> (mutex: Mutex<T>);

/// `PoisonError::into_inner` hands out what the error carries: for a
/// poisoned lock, its guard. Nothing is claimed of it.
pub assume_specification<T>[ PoisonError::<T>::into_inner ](error: PoisonError<T>) -> (inner: T);

/// `Mutex::try_lock` returns at once, whoever holds the lock: with the
/// guard, with the guard inside an error where an earlier holder panicked,
/// or with word that the lock is held. The first two are handed on as they
/// are, the third as `None`. Nothing is claimed of which of the three it is,
/// nor of the value behind the guard.
#[verifier::external_body]
pub(crate) fn try_lock<T>(mutex: &Mutex<T>) -> (attempt: Option<LockResult<MutexGuard<'_, T>>>) {
    match mutex.try_lock() {
        Ok(guard) => Some(Ok(guard)),
        Err(TryLockError::Poisoned(poisoned)) => Some(Err(poisoned)),
        Err(TryLockError::WouldBlock) => None,
    }
}

/// `MutexGuard::deref`: shared access to the value behind the lock. Nothing
/// is claimed of the value.
#[verifier::external_body]
pub(crate) fn guard_ref<'g, 'a, T>(guard: &'g MutexGuard<'a, T>) -> (value: &'g T) {
    &**guard
}

/// `MutexGuard::deref_mut`: exclusive access to the value behind the lock.
/// Nothing is claimed of the value, before or after.
#[verifier::external_body]
pub(crate) fn guard_mut<'g, 'a, T>(guard: &'g mut MutexGuard<'a, T>) -> (value: &'g mut T) {
    &mut **guard
}

/// Tries a lock and takes it where it is free. A lock that a panicking
/// holder left poisoned is taken all the same, with the value as that holder
/// left it. `None` where the lock is held.
pub(crate) fn try_lock_recover<T>(mutex: &Mutex<T>) -> (guard: Option<MutexGuard<'_, T>>) {
    match try_lock(mutex) {
        Some(Ok(guard)) => Some(guard),
        Some(Err(poisoned)) => Some(poisoned.into_inner()),
        None => None,
    }
}

/// Gives the lock up: the guard ends here.
pub(crate) fn unlock<T>(_guard: MutexGuard<'_, T>) {
}

} // verus!
