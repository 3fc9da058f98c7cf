use vstd::prelude::*;
use std::cell::Cell;
use std::rc::Rc;
use std::sync::atomic::AtomicI32;
use std::sync::MutexGuard;

verus! {

/// `Cell`, carried through as an opaque value.
#[verifier::external_type_specification]
#[verifier::external_body]
#[verifier::reject_recursive_types(T)]
pub struct ExCell<T: ?Sized>(Cell<T>);

/// `MutexGuard`, carried through as an opaque value.
#[verifier::external_type_specification]
#[verifier::external_body]
#[verifier::reject_recursive_types(T)]
pub struct ExMutexGuard<'a, T: ?Sized + 'a>(MutexGuard<'a, T>);

/// Accepts only values that may be shared between threads.
pub fn requires_sync<T: Sync>(_v: &T) {
}

/// Accepts only values that may be moved to another thread.
pub fn requires_send<T: Send>(_v: &T) {
}

/// Shared between threads but never moved: it holds a lock's guard.
pub struct OnlySync<'a>(pub MutexGuard<'a, i32>);

/// Moved between threads but never shared: it holds a `Cell`.
pub struct OnlySend(pub Cell<i32>);

/// Both shared and moved: it holds an atomic.
pub struct SyncAndSend(pub AtomicI32);

/// Neither shared nor moved: it holds an `Rc`.
pub struct NotSyncNotSend(pub Rc<i32>);

} // verus!
