//! Joint ownership of the state that a resource publishes for its handles.

use std::sync::{Arc, Mutex, MutexGuard};
use vstd::prelude::*;

verus! {

#[verifier::external_type_specification]
#[verifier::external_body]
#[verifier::reject_recursive_types(T)]
pub struct ExMutex<T: ?Sized>(Mutex<T>);

#[verifier::external_type_specification]
#[verifier::external_body]
#[verifier::reject_recursive_types(T)]
pub struct ExMutexGuard<'a, T: ?Sized + 'a>(MutexGuard<'a, T>);

/// `std::sync::Mutex::new`: a lock around the value, not held by anyone.
#[verifier::external_body]
pub(crate) fn locked<T>(value: T) -> (mutex: Mutex<T>) {
    Mutex::new(value)
}

/// `std::sync::Mutex::try_lock`: holds the lock, until the guard is let go
/// of, if nobody holds it at the moment; never waits. Nothing if somebody
/// does, or if a holder panicked. What the lock guards is whatever its
/// holders have made of it.
#[verifier::external_body]
pub(crate) fn try_lock<'a, T>(mutex: &'a Mutex<T>) -> (guard: Option<MutexGuard<'a, T>>) {
    mutex.try_lock().ok()
}

/// `DerefMut::deref_mut` of `std::sync::MutexGuard`: what the lock guards,
/// for the holder alone to read and change.
#[verifier::external_body]
pub(crate) fn held<'a, 'b, T>(guard: &'a mut MutexGuard<'b, T>) -> (value: &'a mut T) {
    &mut **guard
}

/// `std::sync::Arc::clone`: another pointer to the same value, which lives
/// for as long as one of its pointers does.
#[verifier::external_body]
pub(crate) fn share<T>(value: &Arc<T>) -> (shared: Arc<T>)
    ensures
        shared == *value,
{
    Arc::clone(value)
}

} // verus!
