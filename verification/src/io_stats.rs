//! I/O counters of an object store, and the counters that a tracking
//! wrapper shares with its owner.
//!
//! Counters wrap at `u64::MAX`.
use std::sync::Arc;
use vstd::prelude::*;
use vstd::rwlock::{RwLock, RwLockPredicate};
use vstd::string::*;
use crate::text::{decimal, decimal_string};

verus! {

/// Cumulative I/O counters of an object store.
#[derive(Debug)]
pub struct IoStats {
    pub read_iops: u64,
    pub read_bytes: u64,
    pub write_iops: u64,
    pub write_bytes: u64,
}

/// The all-zero counters.
pub open spec fn zero_stats() -> IoStats {
    IoStats { read_iops: 0, read_bytes: 0, write_iops: 0, write_bytes: 0 }
}

/// The counters after one write of `num_bytes` bytes (counters wrap at `u64::MAX`).
pub open spec fn after_write(s: IoStats, num_bytes: u64) -> IoStats {
    IoStats {
        read_iops: s.read_iops,
        read_bytes: s.read_bytes,
        write_iops: vstd::wrapping::u64_specs::wrapping_add(s.write_iops, 1),
        write_bytes: vstd::wrapping::u64_specs::wrapping_add(s.write_bytes, num_bytes),
    }
}

/// The counters after one read of `num_bytes` bytes (counters wrap at `u64::MAX`).
pub open spec fn after_read(s: IoStats, num_bytes: u64) -> IoStats {
    IoStats {
        read_iops: vstd::wrapping::u64_specs::wrapping_add(s.read_iops, 1),
        read_bytes: vstd::wrapping::u64_specs::wrapping_add(s.read_bytes, num_bytes),
        write_iops: s.write_iops,
        write_bytes: s.write_bytes,
    }
}

impl Default for IoStats {
    fn default() -> (s: Self)
        ensures
            s == zero_stats(),
    {
        IoStats { read_iops: 0, read_bytes: 0, write_iops: 0, write_bytes: 0 }
    }
}

impl IoStats {
    /// Counts one read operation of `num_bytes` bytes.
    pub fn record_read(&mut self, num_bytes: u64)
        ensures
            *final(self) == after_read(*old(self), num_bytes),
    {
        self.read_iops = self.read_iops.wrapping_add(1);
        self.read_bytes = self.read_bytes.wrapping_add(num_bytes);
    }

    /// Counts one write operation of `num_bytes` bytes.
    pub fn record_write(&mut self, num_bytes: u64)
        ensures
            *final(self) == after_write(*old(self), num_bytes),
    {
        self.write_iops = self.write_iops.wrapping_add(1);
        self.write_bytes = self.write_bytes.wrapping_add(num_bytes);
    }

    /// Hands out the counters and resets them to zero.
    pub fn take(&mut self) -> (taken: IoStats)
        ensures
            taken == *old(self),
            *final(self) == zero_stats(),
    {
        let taken = IoStats {
            read_iops: self.read_iops,
            read_bytes: self.read_bytes,
            write_iops: self.write_iops,
            write_bytes: self.write_bytes,
        };
        *self = IoStats::default();
        taken
    }
}

/// How the counters are displayed: the pretty-printed form of the struct.
pub open spec fn stats_text(s: IoStats) -> Seq<char> {
    "IoStats {\n    read_iops: "@ + decimal(s.read_iops as nat) + ",\n    read_bytes: "@ + decimal(
        s.read_bytes as nat,
    ) + ",\n    write_iops: "@ + decimal(s.write_iops as nat) + ",\n    write_bytes: "@ + decimal(
        s.write_bytes as nat,
    ) + ",\n}"@
}

impl IoStats {
    /// The counters as text (the struct, pretty-printed).
    pub fn to_string(&self) -> (t: String)
        ensures
            t@ == stats_text(*self),
    {
        let t = String::from_str("IoStats {\n    read_iops: ");
        let t = t.concat(decimal_string(self.read_iops).as_str());
        let t = t.concat(",\n    read_bytes: ");
        let t = t.concat(decimal_string(self.read_bytes).as_str());
        let t = t.concat(",\n    write_iops: ");
        let t = t.concat(decimal_string(self.write_iops).as_str());
        let t = t.concat(",\n    write_bytes: ");
        let t = t.concat(decimal_string(self.write_bytes).as_str());
        t.concat(",\n}")
    }
}

/// The predicate of the lock that guards shared counters: every value of the
/// counters may be stored.
pub struct SharedStatsPredicate;

impl RwLockPredicate<IoStats> for SharedStatsPredicate {
    open spec fn inv(self, v: IoStats) -> bool {
        true
    }
}

/// Counters shared between an I/O-tracking object store and its owner.
///
/// Every clone refers to the same counters, and any clone, on any thread,
/// may change them at any time: what the lock holds at a given moment is not
/// known to the caller of one of these methods, so their contracts state
/// nothing of the counters' values (the arithmetic they apply is stated and
/// proved on `IoStats`).
#[derive(Clone)]
pub struct IoStatsHolder(Arc<RwLock<IoStats, SharedStatsPredicate>>);

impl IoStatsHolder {
    /// Fresh shared counters, all zero.
    pub fn new() -> (h: Self) {
        IoStatsHolder(Arc::new(RwLock::new(IoStats::default(), Ghost(SharedStatsPredicate))))
    }

    /// The counters gathered since the previous call (or since creation),
    /// resetting the shared counters to zero.
    pub fn incremental_stats(&self) -> IoStats {
        let (mut current, handle) = self.0.acquire_write();
        let taken = current.take();
        handle.release_write(current);
        taken
    }

    /// Counts one read of `num_bytes` bytes in the shared counters.
    pub fn record_read(&self, num_bytes: u64) {
        let (mut current, handle) = self.0.acquire_write();
        current.record_read(num_bytes);
        handle.release_write(current);
    }

    /// Counts one write of `num_bytes` bytes in the shared counters.
    pub fn record_write(&self, num_bytes: u64) {
        let (mut current, handle) = self.0.acquire_write();
        current.record_write(num_bytes);
        handle.release_write(current);
    }
}

impl Default for IoStatsHolder {
    fn default() -> Self {
        IoStatsHolder::new()
    }
}

/// Sum of `lengths`, wrapping at `u64::MAX` (as `Iterator::sum` does in a
/// release build).
pub open spec fn wrapping_sum(lengths: Seq<u64>) -> u64
    decreases lengths.len(),
{
    if lengths.len() == 0 {
        0
    } else {
        vstd::wrapping::u64_specs::wrapping_add(wrapping_sum(lengths.drop_last()), lengths.last())
    }
}

/// Total number of bytes of several byte ranges read at once.
pub fn total_length(lengths: &Vec<u64>) -> (total: u64)
    ensures
        total == wrapping_sum(lengths@),
{
    let mut total: u64 = 0;
    let mut i: usize = 0;
    while i < lengths.len()
        invariant
            i <= lengths@.len(),
            total == wrapping_sum(lengths@.take(i as int)),
        decreases lengths@.len() - i,
    {
        proof {
            assert(lengths@.take(i as int + 1).drop_last() == lengths@.take(i as int));
        }
        total = total.wrapping_add(lengths[i]);
        i = i + 1;
    }
    proof {
        assert(lengths@.take(lengths@.len() as int) == lengths@);
    }
    total
}

/// The counters after reads of the given sizes, one after another.
pub open spec fn after_reads(s: IoStats, sizes: Seq<u64>) -> IoStats
    decreases sizes.len(),
{
    if sizes.len() == 0 {
        s
    } else {
        after_read(after_reads(s, sizes.drop_last()), sizes.last())
    }
}

/// The plain sum of `sizes`.
pub open spec fn sum_of(sizes: Seq<u64>) -> int
    decreases sizes.len(),
{
    if sizes.len() == 0 {
        0
    } else {
        sum_of(sizes.drop_last()) + sizes.last()
    }
}

proof fn lemma_sum_of_nonneg(sizes: Seq<u64>)
    ensures
        sum_of(sizes) >= 0,
    decreases sizes.len(),
{
    if sizes.len() > 0 {
        lemma_sum_of_nonneg(sizes.drop_last());
    }
}

/// Reads accumulate: starting from zero, a series of reads counts one
/// operation per read and the total of their sizes (where that total fits in
/// a `u64`), and leaves the write counters at zero.
pub proof fn lemma_reads_accumulate(sizes: Seq<u64>)
    requires
        sum_of(sizes) <= u64::MAX,
        sizes.len() <= u64::MAX,
    ensures
        after_reads(zero_stats(), sizes) == (IoStats {
            read_iops: sizes.len() as u64,
            read_bytes: sum_of(sizes) as u64,
            write_iops: 0,
            write_bytes: 0,
        }),
    decreases sizes.len(),
{
    lemma_sum_of_nonneg(sizes);
    if sizes.len() > 0 {
        lemma_sum_of_nonneg(sizes.drop_last());
        lemma_reads_accumulate(sizes.drop_last());
    }
}

} // verus!
