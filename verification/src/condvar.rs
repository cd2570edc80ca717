//! A condition variable that shared memory writers can use to signal
//! shared memory readers after a write.
//!
//! It is built on a kernel wait/wake facility over a plain word holding
//! a generation counter: waiters sample the counter, sleep only while it
//! still holds the sample, and re-check their own condition after every
//! wake, since a wake may be spurious relative to the caller's actual
//! predicate. The kernel facility is used in its process-shared scope,
//! which ties a wait to the memory behind the word rather than to the
//! creating process. The word itself, however, lives inside the
//! [`Condvar`] value: a wake reaches exactly the waiters that share that
//! value, which means the threads of one address space. Readers in other
//! processes do not wait on it; they poll the shared counter of the
//! region instead, through [`crate::log::LogConsumer::try_next`] and
//! [`crate::dict::DictClient::get`].

use core::sync::atomic::{AtomicU32, Ordering};
use vstd::prelude::*;

verus! {

/// Conditions reported by the condition variable.
#[derive(Debug, PartialEq, Eq, Structural)]
pub enum ErrorCode {
    /// The wait was interrupted by an external signal; the caller decides
    /// whether to retry.
    WaitInterrupted,
    /// The underlying wake request was malformed.
    InvalidWakeArguments,
}

/// The process-shared generation counter the kernel facility waits on.
#[derive(Debug)]
struct Futex {
    value: AtomicU32,
}

/// What a single kernel wait on the counter reported.
enum WaitOutcome {
    /// The waiter was woken by a wake call.
    Woken,
    /// The counter no longer held the sampled value, so the kernel
    /// refused to sleep.
    ValueChanged,
    /// An external signal interrupted the wait.
    Interrupted,
}

/// Relies on linux_futex's FUTEX_WAIT on a process-shared word: sleeps
/// while the word still holds `expected`, reporting a wake, a changed
/// value, or interruption by a signal.
#[verifier::external_body]
fn futex_wait(word: &AtomicU32, expected: u32) -> (r: WaitOutcome) {
    let futex: &linux_futex::Futex<linux_futex::Shared> = linux_futex::AsFutex::as_futex(word);
    match futex.wait(expected) {
        Ok(()) => WaitOutcome::Woken,
        Err(linux_futex::WaitError::WrongValue) => WaitOutcome::ValueChanged,
        Err(linux_futex::WaitError::Interrupted) => WaitOutcome::Interrupted,
    }
}

/// Relies on linux_futex's FUTEX_WAKE on a process-shared word: wakes all
/// waiters currently blocked on it, at most `i32::MAX`, and returns how
/// many were woken, which is never negative.
#[verifier::external_body]
fn futex_wake_all(word: &AtomicU32) -> (r: i32)
    ensures
        r >= 0,
{
    let futex: &linux_futex::Futex<linux_futex::Shared> = linux_futex::AsFutex::as_futex(word);
    futex.wake(i32::MAX)
}

/// A condition variable over a kernel-waitable generation counter. The
/// counter word lives in this value, so waits and wakes meet only where
/// the value itself is shared: among the threads of one address space.
#[derive(Debug)]
pub struct Condvar {
    inner: Futex,
}

impl Condvar {
    /// Creates a new condition variable with its generation counter at
    /// zero.
    pub fn new() -> Condvar {
        Condvar { inner: Futex { value: AtomicU32::new(0) } }
    }

    /// Blocks the calling thread until a signaler acts: the counter is
    /// sampled first, and the kernel refuses to sleep if it no longer
    /// holds that sample, so a wake that fired between sampling and
    /// sleeping is never missed. Fails only when an external signal
    /// interrupts the wait, in which case the caller decides whether to
    /// retry. A plain return is not a precise barrier: it says something
    /// acted on the counter, not that any particular condition of the
    /// caller now holds, so callers re-check their own predicate in a
    /// loop around every wait.
    pub fn wait(&self) -> (r: Result<(), ErrorCode>)
        ensures
            r matches Err(e) ==> e == ErrorCode::WaitInterrupted,
    {
        let expected = self.inner.value.load(Ordering::Acquire);
        match futex_wait(&self.inner.value, expected) {
            WaitOutcome::Interrupted => Err(ErrorCode::WaitInterrupted),
            WaitOutcome::Woken => Ok(()),
            WaitOutcome::ValueChanged => Ok(()),
        }
    }

    /// Advances the generation counter and wakes all waiters currently
    /// blocked on this value's counter, returning how many were woken.
    /// The wake request is well-formed by construction, so the
    /// malformed-wake condition is never reported.
    pub fn notify_all(&self) -> (r: Result<i32, ErrorCode>)
        ensures
            r is Ok,
            r matches Ok(n) ==> n >= 0,
    {
        self.inner.value.fetch_add(1, Ordering::Release);
        let woken = futex_wake_all(&self.inner.value);
        Ok(woken)
    }
}

} // verus!
