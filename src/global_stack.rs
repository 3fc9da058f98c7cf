use vstd::prelude::*;
use std::sync::Arc;
use std::sync::Mutex;

verus! {

/// `Mutex`, carried through as an opaque value.
#[verifier::external_type_specification]
#[verifier::external_body]
#[verifier::reject_recursive_types(T)]
pub struct ExMutex<T: ?Sized>(Mutex<T>);

/// Relies on std's `Mutex::new`: a lock around an empty vector.
#[verifier::external_body]
fn empty_locked<T>() -> Mutex<Vec<T>> {
    Mutex::new(Vec::new())
}

/// Relies on std's `Mutex::lock` and `Vec::push`: pushes `value` while the
/// lock is held (a lock poisoned by a panic elsewhere is taken over).
#[verifier::external_body]
fn push_locked<T>(m: &Mutex<Vec<T>>, value: T) {
    match m.lock() {
        Ok(mut g) => g.push(value),
        Err(p) => p.into_inner().push(value),
    }
}

/// Relies on std's `Mutex::lock` and `Vec::pop`: pops while the lock is
/// held. Other owners of the lock may push and pop between two calls, so
/// nothing is promised of the result.
#[verifier::external_body]
fn pop_locked<T>(m: &Mutex<Vec<T>>) -> Option<T> {
    match m.lock() {
        Ok(mut g) => g.pop(),
        Err(p) => p.into_inner().pop(),
    }
}

/// Relies on std's `Mutex::lock` and `Vec::len`: the length while the
/// lock is held, which other owners may change at any time.
#[verifier::external_body]
fn len_locked<T>(m: &Mutex<Vec<T>>) -> usize {
    match m.lock() {
        Ok(g) => g.len(),
        Err(p) => p.into_inner().len(),
    }
}

/// A stack that every clone shares, usable from several threads.
#[derive(Debug)]
#[verifier::reject_recursive_types(T)]
pub struct GlobalStack<T> {
    stack: Arc<Mutex<Vec<T>>>,
}

impl<T> Clone for GlobalStack<T> {
    /// Another handle on the same stack.
    fn clone(&self) -> GlobalStack<T> {
        GlobalStack { stack: Arc::clone(&self.stack) }
    }
}

impl<T> Default for GlobalStack<T> {
    fn default() -> GlobalStack<T> {
        GlobalStack { stack: Arc::new(empty_locked()) }
    }
}

impl<T> GlobalStack<T> {
    /// A new, empty stack.
    pub fn new() -> GlobalStack<T> {
        GlobalStack::default()
    }

    /// Pushes `value` on the shared stack.
    pub fn push(&self, value: T) {
        push_locked(&self.stack, value)
    }

    /// Pops from the shared stack; `None` where it was empty at that moment.
    pub fn pop(&self) -> Option<T> {
        pop_locked(&self.stack)
    }

    /// The number of values on the shared stack at that moment.
    pub fn len(&self) -> usize {
        len_locked(&self.stack)
    }
}

} // verus!
