//! A deterministic concurrency-testing harness.
//!
//! A driver submits units of work to managed workers and decides, step by
//! step, when each suspended worker may proceed. Every access a worker makes
//! to an instrumented register is bracketed by suspension points, so the
//! driver controls the exact interleaving of memory operations and can
//! reproduce, enumerate, or search for concurrency bugs deterministically.

use vstd::prelude::*;

pub mod driver;
pub mod managed_thread;
pub mod protocol;

verus! {

/// A counter whose increment is deliberately non-atomic: it loads the
/// current value and then stores the successor as two separate accesses to
/// the instrumented register, so interleaved increments can lose updates.
pub struct Counter {
    value: managed_thread::AtomicU32,
}

impl Counter {
    /// The counter's current value.
    pub closed spec fn view(&self) -> u32 {
        self.value@
    }

    pub fn new() -> (r: Counter)
        ensures
            r@ == 0,
    {
        Counter { value: managed_thread::AtomicU32::new(0) }
    }

    /// Load-then-store increment. Run unmanaged (outside any worker) the two
    /// accesses happen back to back and the counter simply goes up by one.
    pub fn increment(&mut self)
        requires
            old(self)@ < u32::MAX,
        ensures
            final(self)@ == old(self)@ + 1,
    {
        let value = self.value.load(managed_thread::Ordering::SeqCst);
        self.value.store(value + 1, managed_thread::Ordering::SeqCst);
    }

    pub fn get(&self) -> (r: u32)
        ensures
            r == self@,
    {
        self.value.load(managed_thread::Ordering::SeqCst)
    }

    /// The raw store a managed worker performs when it is resumed at the
    /// suspension point just before its write access to the register.
    pub(crate) fn set_value(&mut self, value: u32)
        ensures
            final(self)@ == value,
    {
        self.value.store(value, managed_thread::Ordering::SeqCst);
    }
}

impl Default for Counter {
    fn default() -> (r: Counter)
        ensures
            r@ == 0,
    {
        Counter::new()
    }
}

} // verus!
