//! A single-writer, multi-reader append-only record log over a shared
//! memory region.
//!
//! The region holds the protocol header (a reserved synchronization word
//! and a 64-bit record counter) followed by fixed-size record slots
//! starting at the first offset past the header that is a multiple of
//! the record size. The producer is the region's only writer: a record
//! is written into its slot strictly before the counter announcing it is
//! advanced, so a partially written record is never observable, and
//! consumers never read past the count they last observed.
//!
//! Availability is signaled through a [`Condvar`] the producer and its
//! consumers share; a wake reaches the threads of the address space
//! sharing that value. A consumer that shares no condition variable with
//! the producer — one in another process — polls the shared counter with
//! [`LogConsumer::try_next`] instead of waiting.

use crate::condvar::Condvar;
use crate::layout::{
    capacity, first_slot_offset, lemma_first_slot_offset, lemma_slot_end_in_bounds,
    lemma_slots_disjoint, lemma_splice, lemma_splice_preserves_range, lemma_splice_reads_back,
    spec_capacity, spec_first_slot_offset, spec_slot_offset, usable_count, COUNTER_BYTES,
    COUNTER_OFFSET, HEADER_BYTES,
};
use crate::shm::{ErrorCode, OwnedShmMap, ShmMap};
use vstd::bytes::{
    lemma_auto_spec_u64_to_from_le_bytes, spec_u64_from_le_bytes, u64_from_le_bytes,
    u64_to_le_bytes,
};
use vstd::prelude::*;

verus! {

/// Conditions reported by the log protocol.
#[derive(Debug, PartialEq, Eq, Structural)]
pub enum LogError {
    /// The log has no free slot left; the record was not written.
    NoSpaceLeft,
    /// The underlying region reported the carried condition.
    Region(ErrorCode),
}

/// The bytes of record slot `i` in region contents `w`.
pub open spec fn spec_slot_bytes(w: Seq<u8>, record_size: int, i: int) -> Seq<u8> {
    w.subrange(
        spec_slot_offset(record_size, i),
        spec_slot_offset(record_size, i) + record_size,
    )
}

/// The record count the header of region contents `w` announces.
pub open spec fn spec_counter(w: Seq<u8>) -> u64 {
    spec_u64_from_le_bytes(
        w.subrange(COUNTER_OFFSET as int, COUNTER_OFFSET as int + COUNTER_BYTES as int),
    )
}

/// The single writer of a log region: appends fixed-size records in
/// sequence order and announces each by advancing the shared counter.
pub struct LogProducer {
    region: OwnedShmMap,
    record_size: usize,
    first_offset: usize,
    capacity: usize,
    written: usize,
    history: Ghost<Seq<Seq<u8>>>,
}

impl LogProducer {
    /// The records inserted so far, in insertion order.
    pub closed spec fn spec_history(&self) -> Seq<Seq<u8>> {
        self.history@
    }

    /// The fixed size in bytes of every record.
    pub closed spec fn spec_record_size(&self) -> usize {
        self.record_size
    }

    /// How many records fit in the region.
    pub closed spec fn spec_capacity(&self) -> usize {
        self.capacity
    }

    /// How many records have been inserted so far.
    pub closed spec fn spec_written(&self) -> usize {
        self.written
    }

    /// The owner's model of the region contents.
    pub closed spec fn spec_contents(&self) -> Seq<u8> {
        self.region@
    }

    /// The producer's layout is consistent with the region, the shared
    /// counter announces exactly the records written so far, and every
    /// announced slot holds the record inserted at its index.
    pub closed spec fn wf(&self) -> bool {
        &&& self.region.wf()
        &&& 0 < self.record_size
        &&& self.record_size + HEADER_BYTES <= usize::MAX
        &&& HEADER_BYTES <= self.region.spec_definition().size
        &&& self.first_offset == spec_first_slot_offset(self.record_size as int)
        &&& self.capacity == spec_capacity(
            self.region.spec_definition().size as int,
            self.record_size as int,
        )
        &&& self.written <= self.capacity
        &&& self.history@.len() == self.written
        &&& spec_counter(self.region@) == self.written as u64
        &&& forall|i: int|
            0 <= i < self.written ==> spec_slot_bytes(self.region@, self.record_size as int, i)
                == self.history@[i]
    }

    /// Takes ownership of a region and starts an empty log in it: the
    /// shared counter is set to zero, and the capacity is fixed from the
    /// region size and the record size, never to grow.
    pub fn new(region: OwnedShmMap, record_size: usize) -> (r: Result<LogProducer, LogError>)
        requires
            region.wf(),
            0 < record_size,
            record_size + HEADER_BYTES <= usize::MAX,
            HEADER_BYTES <= region.spec_definition().size,
        ensures
            r matches Ok(p) ==> {
                &&& p.wf()
                &&& p.spec_history() == Seq::<Seq<u8>>::empty()
                &&& p.spec_written() == 0
                &&& p.spec_record_size() == record_size
                &&& p.spec_capacity() == spec_capacity(
                    region.spec_definition().size as int,
                    record_size as int,
                )
            },
            r matches Err(e) ==> e matches LogError::Region(_),
    {
        let first_offset = first_slot_offset(record_size);
        let cap = capacity(region.size(), record_size);
        let mut region = region;
        let ghost w0 = region@;
        let zero = u64_to_le_bytes(0);
        match region.write_at(COUNTER_OFFSET, zero.as_slice()) {
            Ok(()) => {},
            Err(e) => {
                return Err(LogError::Region(e));
            },
        }
        proof {
            lemma_auto_spec_u64_to_from_le_bytes();
            lemma_splice_reads_back(w0, COUNTER_OFFSET as int, zero@);
            lemma_splice(w0, COUNTER_OFFSET as int, zero@);
        }
        Ok(LogProducer {
            region,
            record_size,
            first_offset,
            capacity: cap,
            written: 0,
            history: Ghost(Seq::empty()),
        })
    }

    /// Inserts a record. When no capacity remains this fails with
    /// [`LogError::NoSpaceLeft`], and only then, with nothing written.
    /// Otherwise the record goes into the next free slot, the shared
    /// counter advances by one, and all waiters blocked on `cv` are
    /// notified; the number of woken waiters is returned. On a region failure nothing is
    /// announced: the counter still holds the old count, so no consumer
    /// can observe a partial record.
    pub fn insert(&mut self, record: &[u8], cv: &Condvar) -> (r: Result<i32, LogError>)
        requires
            old(self).wf(),
            record@.len() == old(self).spec_record_size(),
        ensures
            final(self).wf(),
            final(self).spec_record_size() == old(self).spec_record_size(),
            final(self).spec_capacity() == old(self).spec_capacity(),
            r == Err::<i32, LogError>(LogError::NoSpaceLeft) <==> old(self).spec_written()
                == old(self).spec_capacity(),
            r matches Ok(woken) ==> {
                &&& final(self).spec_history() == old(self).spec_history().push(record@)
                &&& final(self).spec_written() == old(self).spec_written() + 1
                &&& woken >= 0
            },
            r is Err ==> {
                &&& final(self).spec_history() == old(self).spec_history()
                &&& final(self).spec_written() == old(self).spec_written()
            },
    {
        if self.written == self.capacity {
            return Err(LogError::NoSpaceLeft);
        }
        let ghost size = self.region.spec_definition().size as int;
        let ghost rs = self.record_size as int;
        let ghost idx = self.written as int;
        let ghost w0 = self.region@;
        proof {
            lemma_slot_end_in_bounds(size, rs, idx);
            lemma_first_slot_offset(rs);
        }
        let off = self.first_offset + self.written * self.record_size;
        match self.region.write_at(off, record) {
            Ok(()) => {},
            Err(e) => {
                return Err(LogError::Region(e));
            },
        }
        let ghost w1 = self.region@;
        let new_count = self.written + 1;
        let counter_bytes = u64_to_le_bytes(new_count as u64);
        proof {
            lemma_splice(w0, off as int, record@);
            // the new record's slot lies past the header, so writing the
            // counter afterwards cannot disturb it
            assert forall|i: int| 0 <= i < idx implies spec_slot_bytes(w1, rs, i)
                == spec_slot_bytes(w0, rs, i) by {
                lemma_slot_end_in_bounds(size, rs, i);
                lemma_slots_disjoint(rs, i, idx);
                lemma_splice_preserves_range(
                    w0,
                    off as int,
                    record@,
                    spec_slot_offset(rs, i),
                    spec_slot_offset(rs, i) + rs,
                );
            }
            lemma_splice_reads_back(w0, off as int, record@);
            lemma_splice_preserves_range(w0, off as int, record@, COUNTER_OFFSET as int, 16);
        }
        match self.region.write_at(COUNTER_OFFSET, counter_bytes.as_slice()) {
            Ok(()) => {},
            Err(e) => {
                return Err(LogError::Region(e));
            },
        }
        let ghost w2 = self.region@;
        proof {
            lemma_splice(w1, COUNTER_OFFSET as int, counter_bytes@);
            lemma_auto_spec_u64_to_from_le_bytes();
            lemma_splice_reads_back(w1, COUNTER_OFFSET as int, counter_bytes@);
            assert forall|i: int| 0 <= i <= idx implies spec_slot_bytes(w2, rs, i)
                == spec_slot_bytes(w1, rs, i) by {
                lemma_slot_end_in_bounds(size, rs, i);
                lemma_splice_preserves_range(
                    w1,
                    COUNTER_OFFSET as int,
                    counter_bytes@,
                    spec_slot_offset(rs, i),
                    spec_slot_offset(rs, i) + rs,
                );
            }
        }
        self.written = new_count;
        self.history = Ghost(self.history@.push(record@));
        let woken = cv.notify_all();
        Ok(woken.unwrap())
    }

    /// Releases the underlying owning mapping: detaches this process's
    /// view and destroys the named resource, exactly once.
    pub fn release(self) -> (r: Result<(), ErrorCode>)
        ensures
            r matches Err(e) ==> {
                ||| e == ErrorCode::CloseInterrupted
                ||| e == ErrorCode::CloseIOError
                ||| e == ErrorCode::UnlinkingANonExistentFile
                ||| e matches ErrorCode::Unknown(_)
            },
    {
        let LogProducer { region, record_size: _, first_offset: _, capacity: _, written: _, history: _ } = self;
        region.release()
    }
}

/// The records a reader of region contents `w` obtains by reading the
/// first `n` slots in index order.
pub open spec fn spec_records(w: Seq<u8>, record_size: int, n: int) -> Seq<Seq<u8>> {
    Seq::new(n as nat, |i: int| spec_slot_bytes(w, record_size, i))
}

/// Log ordering: the counter announces exactly the inserted records, and
/// reading the announced slots in index order yields exactly those
/// records, in insertion order, however many individual wake signals the
/// reader caught.
pub proof fn lemma_log_ordering(p: &LogProducer)
    requires
        p.wf(),
    ensures
        p.spec_history().len() == spec_counter(p.spec_contents()),
        spec_records(
            p.spec_contents(),
            p.spec_record_size() as int,
            p.spec_history().len() as int,
        ) == p.spec_history(),
{
    assert(spec_records(
        p.spec_contents(),
        p.spec_record_size() as int,
        p.spec_history().len() as int,
    ) =~= p.spec_history());
}

/// A reader of a log region: keeps a private cursor of the next record
/// to consume and blocks on the condition variable when caught up.
pub struct LogConsumer {
    region: ShmMap,
    record_size: usize,
    first_offset: usize,
    capacity: usize,
    next_index: usize,
}

impl LogConsumer {
    /// The index of the next record to consume.
    pub closed spec fn spec_next_index(&self) -> usize {
        self.next_index
    }

    /// The fixed size in bytes of every record.
    pub closed spec fn spec_record_size(&self) -> usize {
        self.record_size
    }

    /// How many records fit in the region.
    pub closed spec fn spec_capacity(&self) -> usize {
        self.capacity
    }

    /// The consumer's layout is consistent with the region and its cursor
    /// never passes the region's capacity.
    pub closed spec fn wf(&self) -> bool {
        &&& self.region.wf()
        &&& 0 < self.record_size
        &&& self.record_size + HEADER_BYTES <= usize::MAX
        &&& HEADER_BYTES <= self.region.spec_definition().size
        &&& self.first_offset == spec_first_slot_offset(self.record_size as int)
        &&& self.capacity == spec_capacity(
            self.region.spec_definition().size as int,
            self.record_size as int,
        )
        &&& self.next_index <= self.capacity
    }

    /// Attaches to a log region opened elsewhere, starting at the first
    /// record: the cursor is process-local state, rebuilt from the shared
    /// header as records are consumed.
    pub fn new(region: ShmMap, record_size: usize) -> (r: LogConsumer)
        requires
            region.wf(),
            0 < record_size,
            record_size + HEADER_BYTES <= usize::MAX,
            HEADER_BYTES <= region.spec_definition().size,
        ensures
            r.wf(),
            r.spec_next_index() == 0,
            r.spec_record_size() == record_size,
            r.spec_capacity() == spec_capacity(
                region.spec_definition().size as int,
                record_size as int,
            ),
    {
        let first_offset = first_slot_offset(record_size);
        let cap = capacity(region.size(), record_size);
        LogConsumer { region, record_size, first_offset, capacity: cap, next_index: 0 }
    }

    /// Reads the record count the shared header currently announces,
    /// clamped to the capacity: a larger count cannot correspond to a
    /// slot inside the region.
    fn read_announced(&self) -> (r: Result<usize, LogError>)
        requires
            self.wf(),
        ensures
            r matches Ok(n) ==> n <= self.spec_capacity(),
            r matches Err(e) ==> e matches LogError::Region(_),
    {
        let v = match self.region.read_at(COUNTER_OFFSET, COUNTER_BYTES) {
            Ok(v) => v,
            Err(e) => {
                return Err(LogError::Region(e));
            },
        };
        let announced = u64_from_le_bytes(v.as_slice());
        Ok(usable_count(announced, self.capacity))
    }

    /// Returns the next record if one is currently announced, never
    /// waiting: a caught-up log yields no record for this call and the
    /// caller polls again. This is the path for consumers that share no
    /// condition variable with the producer, such as those in other
    /// processes. The bytes returned are whatever the shared
    /// slot held: their meaning rests on the single-writer protocol.
    pub fn try_next(&mut self) -> (r: Result<Option<Vec<u8>>, LogError>)
        requires
            old(self).wf(),
        ensures
            final(self).wf(),
            final(self).spec_record_size() == old(self).spec_record_size(),
            final(self).spec_capacity() == old(self).spec_capacity(),
            r matches Ok(Some(v)) ==> {
                &&& v@.len() == old(self).spec_record_size()
                &&& final(self).spec_next_index() == old(self).spec_next_index() + 1
            },
            r matches Ok(None) ==> final(self).spec_next_index() == old(self).spec_next_index(),
            r is Err ==> final(self).spec_next_index() == old(self).spec_next_index(),
            r matches Err(e) ==> e matches LogError::Region(_),
            old(self).spec_next_index() == old(self).spec_capacity() ==> r == Ok::<
                Option<Vec<u8>>,
                LogError,
            >(None),
    {
        if self.next_index == self.capacity {
            return Ok(None);
        }
        let announced = match self.read_announced() {
            Ok(n) => n,
            Err(e) => {
                return Err(e);
            },
        };
        if announced <= self.next_index {
            return Ok(None);
        }
        proof {
            lemma_slot_end_in_bounds(
                self.region.spec_definition().size as int,
                self.record_size as int,
                self.next_index as int,
            );
        }
        let off = self.first_offset + self.next_index * self.record_size;
        let v = match self.region.read_at(off, self.record_size) {
            Ok(v) => v,
            Err(e) => {
                return Err(LogError::Region(e));
            },
        };
        self.next_index = self.next_index + 1;
        Ok(Some(v))
    }

    /// Returns the next record if one is announced. If the log is caught
    /// up, waits once on `cv` and re-checks: an interrupted or fruitless
    /// wait yields no record for this call, not an error, and the caller
    /// calls again. Only a notifier sharing `cv` can end the wait, so a
    /// consumer that shares none with the producer polls [`Self::try_next`]
    /// instead. Once every slot the region can ever hold has been
    /// consumed, no record can ever arrive and no wait is entered.
    pub fn next(&mut self, cv: &Condvar) -> (r: Result<Option<Vec<u8>>, LogError>)
        requires
            old(self).wf(),
        ensures
            final(self).wf(),
            final(self).spec_record_size() == old(self).spec_record_size(),
            final(self).spec_capacity() == old(self).spec_capacity(),
            r matches Ok(Some(v)) ==> {
                &&& v@.len() == old(self).spec_record_size()
                &&& final(self).spec_next_index() == old(self).spec_next_index() + 1
            },
            r matches Ok(None) ==> final(self).spec_next_index() == old(self).spec_next_index(),
            r is Err ==> final(self).spec_next_index() == old(self).spec_next_index(),
            r matches Err(e) ==> e matches LogError::Region(_),
            old(self).spec_next_index() == old(self).spec_capacity() ==> r == Ok::<
                Option<Vec<u8>>,
                LogError,
            >(None),
    {
        if self.next_index == self.capacity {
            return Ok(None);
        }
        match self.try_next() {
            Ok(Some(v)) => {
                return Ok(Some(v));
            },
            Ok(None) => {},
            Err(e) => {
                return Err(e);
            },
        }
        match cv.wait() {
            Err(_) => {
                return Ok(None);
            },
            Ok(()) => {},
        }
        self.try_next()
    }

    /// Releases the underlying non-owning mapping: detaches this
    /// process's view only, never the named resource.
    pub fn release(self) -> (r: Result<(), ErrorCode>)
        ensures
            r matches Err(e) ==> {
                ||| e == ErrorCode::CloseInterrupted
                ||| e == ErrorCode::CloseIOError
                ||| e matches ErrorCode::Unknown(_)
            },
    {
        let LogConsumer { region, record_size: _, first_offset: _, capacity: _, next_index: _ } = self;
        region.release()
    }
}

} // verus!
