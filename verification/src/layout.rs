//! Layout arithmetic shared by the log and dictionary protocols, and the
//! byte-level model of a mapped region.
//!
//! A region hosting a log or a dictionary starts with a fixed header: a
//! reserved synchronization word, then a 64-bit record counter. Record
//! slots begin at the first offset at or past the header that is a
//! multiple of the record size, so records are always naturally aligned.
//! The reserved word is kept zero and not interpreted: it holds the
//! place of a wake word for a waiter that sleeps on the mapped region
//! itself, so such a waiter can be adopted without a layout change.
//! This library's readers learn of new records from the record counter:
//! woken by a [`crate::condvar::Condvar`] they share with the writer, or
//! polling it from another process.

use vstd::arithmetic::div_mod::{
    lemma_div_is_ordered, lemma_fundamental_div_mod, lemma_mod_multiples_basic,
};
use vstd::arithmetic::mul::{lemma_mul_inequality, lemma_mul_is_distributive_add_other_way};
use vstd::prelude::*;

verus! {

/// Bytes reserved at the start of a region for the protocol header: a
/// reserved synchronization word, kept zero and not interpreted, and the
/// 64-bit record counter.
pub const HEADER_BYTES: usize = 16;

/// Offset of the 64-bit record counter inside the header.
pub const COUNTER_OFFSET: usize = 8;

/// Width of the record counter in bytes.
pub const COUNTER_BYTES: usize = 8;

/// Offsets and sizes are converted to signed 64-bit file offsets, so every
/// region size the library accepts must stay below this bound.
pub const MAX_REGION_BYTES: u64 = 0x7fff_ffff_ffff_ffff;

/// The offset of the first record slot: the smallest multiple of
/// `record_size` at or past the header.
pub open spec fn spec_first_slot_offset(record_size: int) -> int
    recommends
        record_size > 0,
{
    ((HEADER_BYTES + record_size - 1) / record_size) * record_size
}

/// How many record slots fit in a region: one per full record-size block
/// of the region, minus the blocks consumed by the aligned header.
pub open spec fn spec_capacity(region_size: int, record_size: int) -> int
    recommends
        record_size > 0,
{
    if spec_first_slot_offset(record_size) > region_size {
        0
    } else {
        region_size / record_size - spec_first_slot_offset(record_size) / record_size
    }
}

/// Byte offset of record slot `i`.
pub open spec fn spec_slot_offset(record_size: int, i: int) -> int
    recommends
        record_size > 0,
{
    spec_first_slot_offset(record_size) + i * record_size
}

/// The first slot starts at or past the header, strictly before the next
/// record-size block, and at a multiple of the record size.
pub proof fn lemma_first_slot_offset(record_size: int)
    requires
        record_size > 0,
    ensures
        spec_first_slot_offset(record_size) % record_size == 0,
        HEADER_BYTES <= spec_first_slot_offset(record_size),
        spec_first_slot_offset(record_size) < HEADER_BYTES + record_size,
{
    let h = HEADER_BYTES as int;
    let q = (h + record_size - 1) / record_size;
    lemma_mod_multiples_basic(q, record_size);
    lemma_fundamental_div_mod(h + record_size - 1, record_size);
}

/// Every slot below the capacity ends at or before the end of the region.
pub proof fn lemma_slot_end_in_bounds(region_size: int, record_size: int, i: int)
    requires
        record_size > 0,
        0 <= i < spec_capacity(region_size, record_size),
    ensures
        spec_slot_offset(record_size, i) + record_size <= region_size,
{
    let rs = record_size;
    let first = spec_first_slot_offset(record_size);
    lemma_first_slot_offset(record_size);
    lemma_fundamental_div_mod(first, rs);
    // first is a multiple of the record size, so first == (first / rs) * rs
    let fq = first / rs;
    // i + 1 <= capacity, so fq + i + 1 <= region_size / rs
    lemma_fundamental_div_mod(region_size, rs);
    assert(fq + i + 1 <= region_size / rs);
    lemma_mul_inequality(fq + i + 1, region_size / rs, rs);
    lemma_mul_is_distributive_add_other_way(rs, fq, i + 1);
    lemma_mul_is_distributive_add_other_way(rs, i, 1);
    assert((region_size / rs) * rs <= region_size);
}

/// Slots with distinct indices occupy disjoint byte ranges: the earlier
/// slot ends at or before the later one starts.
pub proof fn lemma_slots_disjoint(record_size: int, j: int, i: int)
    requires
        record_size > 0,
        0 <= j < i,
    ensures
        spec_slot_offset(record_size, j) + record_size <= spec_slot_offset(record_size, i),
{
    lemma_mul_inequality(j + 1, i, record_size);
    lemma_mul_is_distributive_add_other_way(record_size, j, 1);
}

/// Exec counterpart of `spec_first_slot_offset`.
pub fn first_slot_offset(record_size: usize) -> (r: usize)
    requires
        0 < record_size,
        record_size + HEADER_BYTES <= usize::MAX,
    ensures
        r == spec_first_slot_offset(record_size as int),
        HEADER_BYTES <= r < HEADER_BYTES + record_size,
        r % record_size == 0,
{
    proof {
        lemma_first_slot_offset(record_size as int);
    }
    ((HEADER_BYTES + record_size - 1) / record_size) * record_size
}

/// Exec counterpart of `spec_capacity`.
pub fn capacity(region_size: usize, record_size: usize) -> (r: usize)
    requires
        0 < record_size,
        record_size + HEADER_BYTES <= usize::MAX,
    ensures
        r == spec_capacity(region_size as int, record_size as int),
{
    let first = first_slot_offset(record_size);
    if first > region_size {
        0
    } else {
        proof {
            lemma_div_is_ordered(first as int, region_size as int, record_size as int);
        }
        region_size / record_size - first / record_size
    }
}

/// The number of record slots a reader may trust from an announced
/// count: the count itself, bounded by the capacity, since a larger
/// count cannot correspond to a slot inside the region.
pub fn usable_count(announced: u64, capacity: usize) -> (r: usize)
    ensures
        r as int == if announced as int <= capacity as int {
            announced as int
        } else {
            capacity as int
        },
{
    if announced > capacity as u64 {
        capacity
    } else {
        announced as usize
    }
}

/// The bytes of `w` with the range starting at `off` replaced by `d`:
/// the model of a write of `d` at offset `off` into a region whose
/// contents were `w`.
pub open spec fn splice(w: Seq<u8>, off: int, d: Seq<u8>) -> Seq<u8>
    recommends
        0 <= off,
        off + d.len() <= w.len(),
{
    w.take(off) + d + w.skip(off + d.len() as int)
}

/// A write replaces exactly the bytes it covers and no others.
pub proof fn lemma_splice(w: Seq<u8>, off: int, d: Seq<u8>)
    requires
        0 <= off,
        off + d.len() <= w.len(),
    ensures
        splice(w, off, d).len() == w.len(),
        forall|j: int| 0 <= j < off ==> splice(w, off, d)[j] == w[j],
        forall|j: int| off <= j < off + d.len() ==> splice(w, off, d)[j] == d[j - off],
        forall|j: int| off + d.len() <= j < w.len() ==> splice(w, off, d)[j] == w[j],
{
}

/// A byte range disjoint from a write reads the same before and after it.
pub proof fn lemma_splice_preserves_range(w: Seq<u8>, off: int, d: Seq<u8>, lo: int, hi: int)
    requires
        0 <= off,
        off + d.len() <= w.len(),
        0 <= lo <= hi <= w.len(),
        hi <= off || off + d.len() <= lo,
    ensures
        splice(w, off, d).subrange(lo, hi) == w.subrange(lo, hi),
{
    lemma_splice(w, off, d);
    assert(splice(w, off, d).subrange(lo, hi) =~= w.subrange(lo, hi));
}

/// The range a write covers reads back exactly the written bytes.
pub proof fn lemma_splice_reads_back(w: Seq<u8>, off: int, d: Seq<u8>)
    requires
        0 <= off,
        off + d.len() <= w.len(),
    ensures
        splice(w, off, d).subrange(off, off + d.len() as int) == d,
{
    lemma_splice(w, off, d);
    assert(splice(w, off, d).subrange(off, off + d.len() as int) =~= d);
}

} // verus!
