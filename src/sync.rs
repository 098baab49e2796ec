//! A mutual-exclusion lock that recovers the value of a poisoned lock.
use vstd::prelude::*;
use std::sync::MutexGuard;

verus! {

#[verifier::external_type_specification]
#[verifier::external_body]
#[verifier::reject_recursive_types(T)]
pub struct ExStdMutex<T: ?Sized>(std::sync::Mutex<T>);

#[verifier::external_type_specification]
#[verifier::external_body]
#[verifier::reject_recursive_types(T)]
pub struct ExStdMutexGuard<'a, T: ?Sized + 'a>(MutexGuard<'a, T>);

/// Relies on `std::sync::Mutex::new`: a lock around `t`.
#[verifier::external_body]
fn std_mutex_new<T>(t: T) -> (r: std::sync::Mutex<T>) {
    std::sync::Mutex::new(t)
}

/// Relies on `std::sync::Mutex::lock`: blocks until the lock is held and
/// returns the guard, also when a holder panicked (the lock is then poisoned).
#[verifier::external_body]
fn std_mutex_lock<T>(m: &std::sync::Mutex<T>) -> (r: MutexGuard<'_, T>) {
    match m.lock() {
        Ok(g) => g,
        Err(e) => e.into_inner(),
    }
}

/// A lock around a value of type `T`.
#[verifier::reject_recursive_types(T)]
pub struct Mutex<T> {
    inner: std::sync::Mutex<T>,
}

impl<T> Mutex<T> {
    /// A lock around `t`.
    pub fn new(t: T) -> (r: Self) {
        Self::const_new(t)
    }

    /// A lock around `t`.
    pub fn const_new(t: T) -> (r: Self) {
        Mutex { inner: std_mutex_new(t) }
    }

    /// Waits for the lock and returns the guard that gives access to the value.
    pub fn lock(&self) -> (r: MutexGuard<'_, T>) {
        std_mutex_lock(&self.inner)
    }
}

} // verus!
