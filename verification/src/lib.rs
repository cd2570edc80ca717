//! Inter-process communication over named shared memory: lifecycle-safe
//! region mapping with creator/opener ownership, a condition variable
//! over a kernel-waitable generation counter, and two protocols built on
//! top of them: a single-writer append-only record log and a keyed
//! dictionary with last-write-wins semantics.
//!
//! Writers and readers in one address space share a [`condvar::Condvar`]
//! to block and wake; readers attached from other processes poll the
//! region's shared record counter ([`log::LogConsumer::try_next`],
//! [`dict::DictClient::get`]).

pub mod condvar;
pub mod dict;
pub mod layout;
pub mod log;
pub mod shm;
