//! A keyed dictionary with last-write-wins semantics over the same
//! physical layout as the log: a written-count header followed by
//! fixed-size record slots.
//!
//! Every record carries its key in its first eight bytes, little endian.
//! The owner keeps a private key-to-slot index: a put for a fresh key
//! appends a new slot exactly like a log insert, while a put for a known
//! key overwrites that key's existing slot in place, consuming no
//! capacity and advancing no counter. Clients lazily rebuild their own
//! index by scanning slots that appeared since their last observation;
//! an index entry may point at a slot the owner has since overwritten
//! for the same key, which is intentional: clients always want the
//! latest value, never history.

use crate::condvar::Condvar;
use crate::layout::{
    capacity, first_slot_offset, lemma_first_slot_offset, lemma_slot_end_in_bounds,
    lemma_slots_disjoint, lemma_splice, lemma_splice_preserves_range, lemma_splice_reads_back,
    spec_capacity, spec_first_slot_offset, spec_slot_offset, usable_count, COUNTER_BYTES,
    COUNTER_OFFSET, HEADER_BYTES,
};
use crate::log::{spec_counter, spec_slot_bytes};
use crate::shm::{ErrorCode, OwnedShmMap, ShmMap};
use vstd::bytes::{
    lemma_auto_spec_u64_to_from_le_bytes, spec_u64_from_le_bytes, u64_from_le_bytes,
    u64_to_le_bytes,
};
use vstd::prelude::*;
use vstd::slice::slice_subrange;

verus! {

/// Width in bytes of the key at the front of every record.
pub const KEY_BYTES: usize = 8;

/// Conditions reported by the dictionary protocol.
#[derive(Debug, PartialEq, Eq, Structural)]
pub enum DictError {
    /// No capacity is left for a fresh key; the record was not written.
    OutOfMemory,
    /// The key has no slot after indexing caught up with the owner.
    NoSuchKey,
    /// The underlying region reported the carried condition.
    Region(ErrorCode),
}

/// The key a record carries: its first eight bytes, little endian.
pub open spec fn spec_key_of(record: Seq<u8>) -> u64 {
    spec_u64_from_le_bytes(record.subrange(0, KEY_BYTES as int))
}

/// What a reader of region contents `w` that has indexed the first `n`
/// slots resolves `key` to: the contents of a slot carrying that key, if
/// any.
pub open spec fn spec_lookup(w: Seq<u8>, record_size: int, n: int, key: u64) -> Option<Seq<u8>> {
    if exists|i: int| 0 <= i < n && spec_key_of(spec_slot_bytes(w, record_size, i)) == key {
        Some(
            spec_slot_bytes(
                w,
                record_size,
                choose|i: int| 0 <= i < n && spec_key_of(spec_slot_bytes(w, record_size, i))
                    == key,
            ),
        )
    } else {
        None
    }
}

/// The facts a well-formed owner holds of one written slot depend only
/// on that slot's bytes: they carry to a view in which the slot reads
/// the same.
proof fn lemma_untouched_slot_facts(
    w0: Seq<u8>,
    w1: Seq<u8>,
    rs: int,
    i: int,
    keys: Seq<u64>,
    model: Map<u64, Seq<u8>>,
)
    requires
        spec_slot_bytes(w1, rs, i) == spec_slot_bytes(w0, rs, i),
        spec_key_of(spec_slot_bytes(w0, rs, i)) == keys[i],
        model.contains_key(keys[i]),
        spec_slot_bytes(w0, rs, i) == model[keys[i]],
    ensures
        spec_key_of(spec_slot_bytes(w1, rs, i)) == keys[i],
        model.contains_key(keys[i]),
        spec_slot_bytes(w1, rs, i) == model[keys[i]],
{
}

/// The single writer of a dictionary region: appends fresh keys and
/// overwrites known keys in place.
pub struct DictOwner {
    region: OwnedShmMap,
    record_size: usize,
    first_offset: usize,
    capacity: usize,
    written: usize,
    keys: Vec<u64>,
    model: Ghost<Map<u64, Seq<u8>>>,
}

impl DictOwner {
    /// The latest record written for each key.
    pub closed spec fn spec_model(&self) -> Map<u64, Seq<u8>> {
        self.model@
    }

    /// The key of each written slot, in slot order.
    pub closed spec fn spec_keys(&self) -> Seq<u64> {
        self.keys@
    }

    /// The fixed size in bytes of every record.
    pub closed spec fn spec_record_size(&self) -> usize {
        self.record_size
    }

    /// How many records fit in the region.
    pub closed spec fn spec_capacity(&self) -> usize {
        self.capacity
    }

    /// How many slots have been written so far.
    pub closed spec fn spec_written(&self) -> usize {
        self.written
    }

    /// The owner's model of the region contents.
    pub closed spec fn spec_contents(&self) -> Seq<u8> {
        self.region@
    }

    /// The owner's layout is consistent with the region; the counter
    /// announces the written slots; each written slot carries its key at
    /// its index, at most one live slot exists per key, and every slot
    /// holds the latest record put for its key.
    pub closed spec fn wf(&self) -> bool {
        &&& self.region.wf()
        &&& KEY_BYTES <= self.record_size
        &&& self.record_size + HEADER_BYTES <= usize::MAX
        &&& HEADER_BYTES <= self.region.spec_definition().size
        &&& self.first_offset == spec_first_slot_offset(self.record_size as int)
        &&& self.capacity == spec_capacity(
            self.region.spec_definition().size as int,
            self.record_size as int,
        )
        &&& self.written <= self.capacity
        &&& self.keys@.len() == self.written
        &&& spec_counter(self.region@) == self.written as u64
        &&& forall|i: int, j: int|
            0 <= i < j < self.written ==> self.keys@[i] != self.keys@[j]
        &&& forall|i: int|
            0 <= i < self.written ==> {
                &&& spec_key_of(
                    #[trigger] spec_slot_bytes(self.region@, self.record_size as int, i),
                ) == self.keys@[i]
                &&& self.model@.contains_key(self.keys@[i])
                &&& spec_slot_bytes(self.region@, self.record_size as int, i)
                    == self.model@[self.keys@[i]]
            }
        &&& forall|k: u64|
            self.model@.contains_key(k) ==> exists|i: int|
                0 <= i < self.written && self.keys@[i] == k
    }

    /// Takes ownership of a region and starts an empty dictionary in it:
    /// the shared written-count is set to zero.
    pub fn new(region: OwnedShmMap, record_size: usize) -> (r: Result<DictOwner, DictError>)
        requires
            region.wf(),
            KEY_BYTES <= record_size,
            record_size + HEADER_BYTES <= usize::MAX,
            HEADER_BYTES <= region.spec_definition().size,
        ensures
            r matches Ok(o) ==> {
                &&& o.wf()
                &&& o.spec_model() == Map::<u64, Seq<u8>>::empty()
                &&& o.spec_written() == 0
                &&& o.spec_record_size() == record_size
                &&& o.spec_capacity() == spec_capacity(
                    region.spec_definition().size as int,
                    record_size as int,
                )
            },
            r matches Err(e) ==> e matches DictError::Region(_),
    {
        let first_offset = first_slot_offset(record_size);
        let cap = capacity(region.size(), record_size);
        let mut region = region;
        let ghost w0 = region@;
        let zero = u64_to_le_bytes(0);
        match region.write_at(COUNTER_OFFSET, zero.as_slice()) {
            Ok(()) => {},
            Err(e) => {
                return Err(DictError::Region(e));
            },
        }
        proof {
            lemma_auto_spec_u64_to_from_le_bytes();
            lemma_splice_reads_back(w0, COUNTER_OFFSET as int, zero@);
            lemma_splice(w0, COUNTER_OFFSET as int, zero@);
        }
        Ok(DictOwner {
            region,
            record_size,
            first_offset,
            capacity: cap,
            written: 0,
            keys: Vec::new(),
            model: Ghost(Map::empty()),
        })
    }

    /// Puts a record under the key it carries. A known key has its
    /// existing slot overwritten in place, consuming no capacity and
    /// advancing no counter. A fresh key appends the next slot, advances
    /// the shared written-count and notifies all waiters blocked on
    /// `cv`; clients poll the written-count on every lookup, so those in
    /// other processes need no wake. When no capacity remains for a
    /// fresh key, and only then, this fails with
    /// [`DictError::OutOfMemory`] and nothing is written.
    pub fn put(&mut self, record: &[u8], cv: &Condvar) -> (r: Result<(), DictError>)
        requires
            old(self).wf(),
            record@.len() == old(self).spec_record_size(),
        ensures
            final(self).wf(),
            final(self).spec_record_size() == old(self).spec_record_size(),
            final(self).spec_capacity() == old(self).spec_capacity(),
            r == Err::<(), DictError>(DictError::OutOfMemory) <==> {
                &&& old(self).spec_written() == old(self).spec_capacity()
                &&& !old(self).spec_model().contains_key(spec_key_of(record@))
            },
            r matches Ok(_) ==> final(self).spec_model() == old(self).spec_model().insert(
                spec_key_of(record@),
                record@,
            ),
            r is Err ==> {
                &&& final(self).spec_model() == old(self).spec_model()
                &&& final(self).spec_written() == old(self).spec_written()
            },
            r matches Err(e) ==> e != DictError::NoSuchKey,
    {
        let key_slice = slice_subrange(record, 0, KEY_BYTES);
        let key = u64_from_le_bytes(key_slice);
        let ghost size = self.region.spec_definition().size as int;
        let ghost rs = self.record_size as int;
        match find_key(&self.keys, key) {
            Some(slot) => {
                // overwrite the key's existing slot in place
                let ghost idx = slot as int;
                let ghost w0 = self.region@;
                proof {
                    lemma_slot_end_in_bounds(size, rs, idx);
                    lemma_first_slot_offset(rs);
                    assert(spec_slot_bytes(w0, rs, idx) == self.model@[self.keys@[idx]]);
                    assert(self.model@.contains_key(key));
                }
                let off = self.first_offset + slot * self.record_size;
                match self.region.write_at(off, record) {
                    Ok(()) => {},
                    Err(e) => {
                        proof {
                            assert forall|i: int| 0 <= i < self.written implies {
                                &&& spec_key_of(
                                    #[trigger] spec_slot_bytes(self.region@, rs, i),
                                ) == self.keys@[i]
                                &&& self.model@.contains_key(self.keys@[i])
                                &&& spec_slot_bytes(self.region@, rs, i)
                                    == self.model@[self.keys@[i]]
                            } by {
                                lemma_untouched_slot_facts(
                                    w0,
                                    self.region@,
                                    rs,
                                    i,
                                    self.keys@,
                                    self.model@,
                                );
                            }
                        }
                        return Err(DictError::Region(e));
                    },
                }
                let ghost w1 = self.region@;
                proof {
                    lemma_splice(w0, off as int, record@);
                    lemma_splice_reads_back(w0, off as int, record@);
                    lemma_splice_preserves_range(w0, off as int, record@, COUNTER_OFFSET as int, 16);
                    assert forall|i: int| 0 <= i < self.written && i != idx implies
                        spec_slot_bytes(w1, rs, i) == spec_slot_bytes(w0, rs, i) by {
                        lemma_slot_end_in_bounds(size, rs, i);
                        if i < idx {
                            lemma_slots_disjoint(rs, i, idx);
                        } else {
                            lemma_slots_disjoint(rs, idx, i);
                        }
                        lemma_splice_preserves_range(
                            w0,
                            off as int,
                            record@,
                            spec_slot_offset(rs, i),
                            spec_slot_offset(rs, i) + rs,
                        );
                    }
                }
                self.model = Ghost(self.model@.insert(key, record@));
                proof {
                    assert(spec_key_of(record@) == key) by {
                        assert(record@.subrange(0, KEY_BYTES as int) == key_slice@);
                    }
                    assert(self.region.wf());
                    assert(spec_counter(self.region@) == self.written as u64);
                    assert(self.keys@.len() == self.written);
                    assert(forall|k: u64|
                        self.model@.contains_key(k) ==> exists|i: int|
                            0 <= i < self.written && self.keys@[i] == k);
                    assert forall|i: int| 0 <= i < self.written implies {
                        &&& spec_key_of(
                            #[trigger] spec_slot_bytes(self.region@, rs, i),
                        ) == self.keys@[i]
                        &&& self.model@.contains_key(self.keys@[i])
                        &&& spec_slot_bytes(self.region@, rs, i) == self.model@[self.keys@[i]]
                    } by {
                        if i != idx {
                            assert(spec_slot_bytes(w1, rs, i) == spec_slot_bytes(w0, rs, i));
                            assert(self.keys@[i] != key);
                        }
                    }
                }
                Ok(())
            },
            None => {
                if self.written == self.capacity {
                    return Err(DictError::OutOfMemory);
                }
                // fresh key: append exactly like a log insert
                let ghost idx = self.written as int;
                let ghost w0 = self.region@;
                proof {
                    lemma_slot_end_in_bounds(size, rs, idx);
                    lemma_first_slot_offset(rs);
                }
                let off = self.first_offset + self.written * self.record_size;
                match self.region.write_at(off, record) {
                    Ok(()) => {},
                    Err(e) => {
                        proof {
                            assert forall|i: int| 0 <= i < self.written implies {
                                &&& spec_key_of(
                                    #[trigger] spec_slot_bytes(self.region@, rs, i),
                                ) == self.keys@[i]
                                &&& self.model@.contains_key(self.keys@[i])
                                &&& spec_slot_bytes(self.region@, rs, i)
                                    == self.model@[self.keys@[i]]
                            } by {
                                lemma_untouched_slot_facts(
                                    w0,
                                    self.region@,
                                    rs,
                                    i,
                                    self.keys@,
                                    self.model@,
                                );
                            }
                        }
                        return Err(DictError::Region(e));
                    },
                }
                let ghost w1 = self.region@;
                let new_count = self.written + 1;
                let counter_bytes = u64_to_le_bytes(new_count as u64);
                proof {
                    lemma_splice(w0, off as int, record@);
                    assert forall|i: int| 0 <= i < idx implies spec_slot_bytes(w1, rs, i)
                        == spec_slot_bytes(w0, rs, i) by {
                        lemma_slot_end_in_bounds(size, rs, i);
                        lemma_slots_disjoint(rs, i, idx);
                        lemma_splice_preserves_range(
                            w0,
                            off as int,
                            record@,
                            spec_slot_offset(rs, i),
                            spec_slot_offset(rs, i) + rs,
                        );
                    }
                    lemma_splice_reads_back(w0, off as int, record@);
                    lemma_splice_preserves_range(w0, off as int, record@, COUNTER_OFFSET as int, 16);
                }
                match self.region.write_at(COUNTER_OFFSET, counter_bytes.as_slice()) {
                    Ok(()) => {},
                    Err(e) => {
                        proof {
                            assert forall|i: int| 0 <= i < self.written implies {
                                &&& spec_key_of(
                                    #[trigger] spec_slot_bytes(self.region@, rs, i),
                                ) == self.keys@[i]
                                &&& self.model@.contains_key(self.keys@[i])
                                &&& spec_slot_bytes(self.region@, rs, i)
                                    == self.model@[self.keys@[i]]
                            } by {
                                lemma_untouched_slot_facts(
                                    w0,
                                    self.region@,
                                    rs,
                                    i,
                                    self.keys@,
                                    self.model@,
                                );
                            }
                        }
                        return Err(DictError::Region(e));
                    },
                }
                let ghost w2 = self.region@;
                proof {
                    lemma_splice(w1, COUNTER_OFFSET as int, counter_bytes@);
                    lemma_auto_spec_u64_to_from_le_bytes();
                    lemma_splice_reads_back(w1, COUNTER_OFFSET as int, counter_bytes@);
                    assert forall|i: int| 0 <= i <= idx implies spec_slot_bytes(w2, rs, i)
                        == spec_slot_bytes(w1, rs, i) by {
                        lemma_slot_end_in_bounds(size, rs, i);
                        lemma_splice_preserves_range(
                            w1,
                            COUNTER_OFFSET as int,
                            counter_bytes@,
                            spec_slot_offset(rs, i),
                            spec_slot_offset(rs, i) + rs,
                        );
                    }
                }
                self.written = new_count;
                self.keys.push(key);
                self.model = Ghost(self.model@.insert(key, record@));
                proof {
                    assert(spec_key_of(record@) == key) by {
                        assert(record@.subrange(0, KEY_BYTES as int) == key_slice@);
                    }
                    assert forall|i: int| 0 <= i < self.written implies {
                        &&& spec_key_of(
                            #[trigger] spec_slot_bytes(self.region@, rs, i),
                        ) == self.keys@[i]
                        &&& self.model@.contains_key(self.keys@[i])
                        &&& spec_slot_bytes(self.region@, rs, i) == self.model@[self.keys@[i]]
                    } by {
                        if i < idx {
                            assert(spec_slot_bytes(w2, rs, i) == spec_slot_bytes(w0, rs, i));
                            assert(self.keys@[i] != key);
                        } else {
                            assert(spec_slot_bytes(w2, rs, idx) == record@);
                        }
                    }
                    assert forall|k: u64| self.model@.contains_key(k) implies exists|i: int|
                        0 <= i < self.written && self.keys@[i] == k by {
                        if k == key {
                            assert(self.keys@[idx] == k);
                        } else {
                            let i = choose|i: int|
                                0 <= i < old(self).spec_written() && old(self).spec_keys()[i]
                                    == k;
                            assert(self.keys@[i] == k);
                        }
                    }
                }
                let _ = cv.notify_all();
                Ok(())
            },
        }
    }

    /// Releases the underlying owning mapping: detaches this process's
    /// view and destroys the named resource, exactly once.
    pub fn release(self) -> (r: Result<(), ErrorCode>)
        ensures
            r matches Err(e) ==> {
                ||| e == ErrorCode::CloseInterrupted
                ||| e == ErrorCode::CloseIOError
                ||| e == ErrorCode::UnlinkingANonExistentFile
                ||| e matches ErrorCode::Unknown(_)
            },
    {
        let DictOwner {
            region,
            record_size: _,
            first_offset: _,
            capacity: _,
            written: _,
            keys: _,
            model: _,
        } = self;
        region.release()
    }
}

/// Last write wins, and fresh writes become visible: a reader of the
/// owner's region contents that has indexed every written slot resolves
/// each key put so far to the latest record put for it, and a key never
/// put to nothing.
pub proof fn lemma_dict_lookup_agrees(o: &DictOwner, key: u64)
    requires
        o.wf(),
    ensures
        o.spec_model().contains_key(key) ==> spec_lookup(
            o.spec_contents(),
            o.spec_record_size() as int,
            o.spec_written() as int,
            key,
        ) == Some(o.spec_model()[key]),
        !o.spec_model().contains_key(key) ==> spec_lookup(
            o.spec_contents(),
            o.spec_record_size() as int,
            o.spec_written() as int,
            key,
        ) is None,
{
    let w = o.spec_contents();
    let rs = o.spec_record_size() as int;
    let n = o.spec_written() as int;
    if o.spec_model().contains_key(key) {
        let i = choose|i: int| 0 <= i < n && o.spec_keys()[i] == key;
        assert(spec_key_of(spec_slot_bytes(w, rs, i)) == key);
        assert(exists|j: int| 0 <= j < n && spec_key_of(spec_slot_bytes(w, rs, j)) == key);
        let j = choose|j: int| 0 <= j < n && spec_key_of(spec_slot_bytes(w, rs, j)) == key;
        assert(o.spec_keys()[j] == key);
        assert(spec_slot_bytes(w, rs, j) == o.spec_model()[key]);
    } else {
        if exists|j: int| 0 <= j < n && spec_key_of(spec_slot_bytes(w, rs, j)) == key {
            let j = choose|j: int| 0 <= j < n && spec_key_of(spec_slot_bytes(w, rs, j)) == key;
            assert(o.spec_keys()[j] == key);
            assert(o.spec_model().contains_key(key));
        }
    }
}

/// A reader of a dictionary region: lazily rebuilds a private
/// key-to-slot index from newly appeared slots, then reads a key's
/// current slot on every lookup.
pub struct DictClient {
    region: ShmMap,
    record_size: usize,
    first_offset: usize,
    capacity: usize,
    seen: usize,
    keys: Vec<u64>,
}

impl DictClient {
    /// The key of each indexed slot, in slot order.
    pub closed spec fn spec_keys(&self) -> Seq<u64> {
        self.keys@
    }

    /// How many slots have been indexed so far.
    pub closed spec fn spec_seen(&self) -> usize {
        self.seen
    }

    /// The fixed size in bytes of every record.
    pub closed spec fn spec_record_size(&self) -> usize {
        self.record_size
    }

    /// How many records fit in the region.
    pub closed spec fn spec_capacity(&self) -> usize {
        self.capacity
    }

    /// The client's layout is consistent with the region and it holds
    /// one indexed key per observed slot.
    pub closed spec fn wf(&self) -> bool {
        &&& self.region.wf()
        &&& KEY_BYTES <= self.record_size
        &&& self.record_size + HEADER_BYTES <= usize::MAX
        &&& HEADER_BYTES <= self.region.spec_definition().size
        &&& self.first_offset == spec_first_slot_offset(self.record_size as int)
        &&& self.capacity == spec_capacity(
            self.region.spec_definition().size as int,
            self.record_size as int,
        )
        &&& self.seen <= self.capacity
        &&& self.keys@.len() == self.seen
    }

    /// Attaches to a dictionary region opened elsewhere with an empty
    /// index: the index is a cache, rebuilt incrementally and never
    /// invalidated wholesale.
    pub fn new(region: ShmMap, record_size: usize) -> (r: DictClient)
        requires
            region.wf(),
            KEY_BYTES <= record_size,
            record_size + HEADER_BYTES <= usize::MAX,
            HEADER_BYTES <= region.spec_definition().size,
        ensures
            r.wf(),
            r.spec_seen() == 0,
            r.spec_record_size() == record_size,
    {
        let first_offset = first_slot_offset(record_size);
        let cap = capacity(region.size(), record_size);
        DictClient {
            region,
            record_size,
            first_offset,
            capacity: cap,
            seen: 0,
            keys: Vec::new(),
        }
    }

    /// Reads the written-count the shared header currently announces,
    /// clamped to the capacity: a larger count cannot correspond to a
    /// slot inside the region.
    fn read_announced(&self) -> (r: Result<usize, DictError>)
        requires
            self.wf(),
        ensures
            r matches Ok(n) ==> n <= self.spec_capacity(),
            r matches Err(e) ==> e matches DictError::Region(_),
    {
        let v = match self.region.read_at(COUNTER_OFFSET, COUNTER_BYTES) {
            Ok(v) => v,
            Err(e) => {
                return Err(DictError::Region(e));
            },
        };
        let announced = u64_from_le_bytes(v.as_slice());
        Ok(usable_count(announced, self.capacity))
    }

    /// Looks a key up: first indexes every slot written since the last
    /// observation, recording each newly seen key at its slot position,
    /// then reads the key's current slot. A key absent after indexing
    /// caught up fails with [`DictError::NoSuchKey`], and only then. The
    /// bytes returned are whatever the key's shared slot held: their
    /// meaning rests on the single-writer protocol.
    pub fn get(&mut self, key: u64) -> (r: Result<Vec<u8>, DictError>)
        requires
            old(self).wf(),
        ensures
            final(self).wf(),
            final(self).spec_record_size() == old(self).spec_record_size(),
            final(self).spec_capacity() == old(self).spec_capacity(),
            final(self).spec_seen() >= old(self).spec_seen(),
            r matches Ok(v) ==> {
                &&& v@.len() == old(self).spec_record_size()
                &&& final(self).spec_keys().contains(key)
            },
            r matches Err(e) ==> e == DictError::NoSuchKey || e matches DictError::Region(_),
            r == Err::<Vec<u8>, DictError>(DictError::NoSuchKey)
                ==> !final(self).spec_keys().contains(key),
    {
        let announced = match self.read_announced() {
            Ok(n) => n,
            Err(e) => {
                return Err(e);
            },
        };
        while self.seen < announced
            invariant
                self.wf(),
                announced <= self.spec_capacity(),
                self.spec_record_size() == old(self).spec_record_size(),
                self.spec_capacity() == old(self).spec_capacity(),
                self.spec_seen() >= old(self).spec_seen(),
            decreases announced - self.seen,
        {
            proof {
                lemma_slot_end_in_bounds(
                    self.region.spec_definition().size as int,
                    self.record_size as int,
                    self.seen as int,
                );
                lemma_first_slot_offset(self.record_size as int);
            }
            let off = self.first_offset + self.seen * self.record_size;
            let head = match self.region.read_at(off, KEY_BYTES) {
                Ok(v) => v,
                Err(e) => {
                    return Err(DictError::Region(e));
                },
            };
            let k = u64_from_le_bytes(head.as_slice());
            self.keys.push(k);
            self.seen = self.seen + 1;
        }
        match find_key(&self.keys, key) {
            Some(slot) => {
                proof {
                    lemma_slot_end_in_bounds(
                        self.region.spec_definition().size as int,
                        self.record_size as int,
                        slot as int,
                    );
                    lemma_first_slot_offset(self.record_size as int);
                }
                let off = self.first_offset + slot * self.record_size;
                match self.region.read_at(off, self.record_size) {
                    Ok(v) => Ok(v),
                    Err(e) => Err(DictError::Region(e)),
                }
            },
            None => {
                Err(DictError::NoSuchKey)
            },
        }
    }

    /// Releases the underlying non-owning mapping: detaches this
    /// process's view only, never the named resource.
    pub fn release(self) -> (r: Result<(), ErrorCode>)
        ensures
            r matches Err(e) ==> {
                ||| e == ErrorCode::CloseInterrupted
                ||| e == ErrorCode::CloseIOError
                ||| e matches ErrorCode::Unknown(_)
            },
    {
        let DictClient {
            region,
            record_size: _,
            first_offset: _,
            capacity: _,
            seen: _,
            keys: _,
        } = self;
        region.release()
    }
}

/// Returns the position of `key` in the index, if present.
fn find_key(keys: &Vec<u64>, key: u64) -> (r: Option<usize>)
    ensures
        r matches Some(i) ==> i < keys@.len() && keys@[i as int] == key,
        r is None ==> forall|j: int| 0 <= j < keys@.len() ==> keys@[j] != key,
{
    let mut i: usize = 0;
    while i < keys.len()
        invariant
            i <= keys@.len(),
            forall|j: int| 0 <= j < i ==> keys@[j] != key,
        decreases keys@.len() - i,
    {
        if keys[i] == key {
            return Some(i);
        }
        i = i + 1;
    }
    None
}

} // verus!
