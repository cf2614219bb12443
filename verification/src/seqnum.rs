//! The sequence-number store: one counter per conversation key, issued by
//! fetch-and-increment and rebuilt from an append-only journal.
//!
//! A counter holds the last number issued for its key; a key without a
//! counter has issued nothing. Each issue leaves one record of 24 bytes,
//! the key and the counter as it was before the increment. Replaying a
//! record raises the counter to at least the number that was issued then.

use vstd::prelude::*;
use ahash::AHashMap;
use crate::counters::{empty_entries, entries, table_get, table_insert, table_new};
use crate::key::{get_key, key_bytes, key_from_bytes, lemma_key_bytes_roundtrip, put_key, KEY_LEN};
use crate::wire::{be64, from_be64, get_be64, lemma_be64_roundtrip, put_be64};

verus! {

/// Length of a journal record: 16 bytes of key, 8 of counter.
pub const RECORD_LEN: usize = 24;

/// One line of the journal: the counter of `key` stood at `value` when a
/// number was issued.
#[derive(Clone, Copy, Debug, PartialEq, Eq, Structural)]
pub struct Record {
    pub key: u128,
    pub value: u64,
}

/// What an issue hands back: the number, and the record to append to the
/// journal.
#[derive(Clone, Copy, Debug, PartialEq, Eq, Structural)]
pub struct Issued {
    pub value: u64,
    pub record: Record,
}

/// Why no number is issued.
#[derive(Clone, Copy, Debug, PartialEq, Eq, Structural)]
pub enum SeqnumError {
    /// The counter of the key stands at the largest 64-bit number.
    Exhausted,
    /// A journal write failed earlier: the shard has stopped.
    JournalError,
}

/// The last number issued for `key`, 0 where none was.
pub open spec fn last(m: Map<u128, u64>, key: u128) -> u64 {
    if m.contains_key(key) {
        m[key]
    } else {
        0
    }
}

/// The counters after one more number is issued for `key`.
pub open spec fn spec_issue(m: Map<u128, u64>, key: u128) -> Map<u128, u64> {
    m.insert(key, (last(m, key) + 1) as u64)
}

/// The number that was issued when a record with this value was written.
pub open spec fn issued_with(value: u64) -> u64 {
    if value == u64::MAX {
        value
    } else {
        (value + 1) as u64
    }
}

/// The counters after a record is replayed: the counter of its key is
/// raised to the number issued with it, and never lowered.
pub open spec fn spec_apply(m: Map<u128, u64>, r: Record) -> Map<u128, u64> {
    if last(m, r.key) < issued_with(r.value) {
        m.insert(r.key, issued_with(r.value))
    } else {
        m
    }
}

/// The 24 bytes of a record: the key, then the counter big-endian.
pub open spec fn record_bytes(r: Record) -> Seq<u8> {
    key_bytes(r.key) + be64(r.value)
}

/// The record whose 24 bytes start at `at`.
pub open spec fn record_from_bytes(b: Seq<u8>, at: int) -> Record {
    Record { key: key_from_bytes(b, at), value: from_be64(b, at + KEY_LEN) }
}

/// Number of whole records in a segment of `len` bytes. A torn record at
/// the end does not count.
pub open spec fn record_count(len: nat) -> nat {
    len / (RECORD_LEN as nat)
}

/// The whole records of segment `b`, in order.
pub open spec fn spec_records(b: Seq<u8>) -> Seq<Record> {
    Seq::new(record_count(b.len()), |i: int| record_from_bytes(b, i * RECORD_LEN))
}

/// The counters after the records `rs` are replayed in order.
pub open spec fn spec_replay(m: Map<u128, u64>, rs: Seq<Record>) -> Map<u128, u64>
    decreases rs.len(),
{
    if rs.len() == 0 {
        m
    } else {
        spec_apply(spec_replay(m, rs.drop_last()), rs.last())
    }
}

/// The counters after a number is issued for each key of `keys`, in order.
pub open spec fn spec_run(m: Map<u128, u64>, keys: Seq<u128>) -> Map<u128, u64>
    decreases keys.len(),
{
    if keys.len() == 0 {
        m
    } else {
        spec_issue(spec_run(m, keys.drop_last()), keys.last())
    }
}

/// The journal that the issues of `spec_run` leave behind.
pub open spec fn spec_journal(m: Map<u128, u64>, keys: Seq<u128>) -> Seq<Record>
    decreases keys.len(),
{
    if keys.len() == 0 {
        Seq::empty()
    } else {
        spec_journal(m, keys.drop_last()).push(
            Record { key: keys.last(), value: last(spec_run(m, keys.drop_last()), keys.last()) },
        )
    }
}

/// How often `key` occurs in `keys`.
pub open spec fn occurrences(keys: Seq<u128>, key: u128) -> nat
    decreases keys.len(),
{
    if keys.len() == 0 {
        0
    } else {
        occurrences(keys.drop_last(), key) + if keys.last() == key {
            1nat
        } else {
            0nat
        }
    }
}

/// No counter overflows while a number is issued for each key of `keys`.
pub open spec fn fits(m: Map<u128, u64>, keys: Seq<u128>) -> bool {
    forall|k: u128| last(m, k) + #[trigger] occurrences(keys, k) <= u64::MAX
}

/// The number that call `i` of the run returns: one more than the counter
/// of its key after the calls before it.
pub open spec fn issued_at(m: Map<u128, u64>, keys: Seq<u128>, i: int) -> int {
    last(spec_run(m, keys.take(i)), keys[i]) + 1
}

/// Reading back the bytes of a record gives the record.
pub proof fn lemma_record_roundtrip(r: Record)
    ensures
        record_bytes(r).len() == RECORD_LEN,
        record_from_bytes(record_bytes(r), 0) == r,
{
    let b = record_bytes(r);
    lemma_key_bytes_roundtrip(r.key);
    lemma_be64_roundtrip(r.value);
    assert(b.subrange(0, 16) =~= key_bytes(r.key));
    assert(b.subrange(16, 24) =~= be64(r.value));
    assert(from_be64(b, 0) == from_be64(b.subrange(0, 16), 0));
    assert(from_be64(b, 8) == from_be64(b.subrange(0, 16), 8));
    assert(from_be64(b, 16) == from_be64(b.subrange(16, 24), 0));
}

/// Appends the 24 bytes of `r` to `out`.
pub fn put_record(out: &mut Vec<u8>, r: &Record)
    ensures
        final(out)@ == old(out)@ + record_bytes(*r),
{
    put_key(out, r.key);
    put_be64(out, r.value);
    assert(out@ =~= old(out)@ + record_bytes(*r));
}

/// The 24 bytes of `r`.
pub fn encode_record(r: &Record) -> (out: Vec<u8>)
    ensures
        out@ == record_bytes(*r),
{
    let mut out: Vec<u8> = Vec::new();
    put_record(&mut out, r);
    assert(out@ =~= record_bytes(*r));
    out
}

/// Reads the record whose 24 bytes start at `at`.
pub fn decode_record(bytes: &[u8], at: usize) -> (r: Record)
    requires
        at + RECORD_LEN <= bytes@.len(),
    ensures
        r == record_from_bytes(bytes@, at as int),
{
    assert(at + 24 <= bytes.len());
    Record { key: get_key(bytes, at), value: get_be64(bytes, at + KEY_LEN) }
}

/// The shard that serves `key` in a pool of `pool_size` shards.
pub fn shard_of(key: u128, pool_size: usize) -> (shard: usize)
    requires
        pool_size > 0,
    ensures
        shard == key % (pool_size as u128),
{
    (key % (pool_size as u128)) as usize
}

/// The counters of one shard.
pub struct SeqnumStore {
    table: AHashMap<u128, u64>,
}

impl View for SeqnumStore {
    type V = Map<u128, u64>;

    closed spec fn view(&self) -> Map<u128, u64> {
        entries(self.table)
    }
}

impl SeqnumStore {
    /// A store that has issued nothing.
    pub fn new() -> (store: SeqnumStore)
        ensures
            store@ == empty_entries(),
    {
        SeqnumStore { table: table_new() }
    }

    /// The last number issued for `key`, 0 where none was.
    pub fn current(&self, key: u128) -> (v: u64)
        ensures
            v == last(self@, key),
    {
        match table_get(&self.table, key) {
            Some(v) => v,
            None => 0,
        }
    }

    /// Issues the next number for `key`: one more than the last. The counter
    /// of no other key changes. Where the counter cannot grow, nothing is
    /// issued and nothing changes.
    pub fn next(&mut self, key: u128) -> (r: Result<Issued, SeqnumError>)
        ensures
            last(old(self)@, key) == u64::MAX ==> r == Err::<Issued, SeqnumError>(
                SeqnumError::Exhausted,
            ) && final(self)@ == old(self)@,
            last(old(self)@, key) < u64::MAX ==> final(self)@ == spec_issue(old(self)@, key) && r
                == Ok::<Issued, SeqnumError>(
                (Issued {
                    value: (last(old(self)@, key) + 1) as u64,
                    record: (Record { key, value: last(old(self)@, key) }),
                }),
            ),
    {
        let before: u64 = self.current(key);
        if before == u64::MAX {
            return Err(SeqnumError::Exhausted);
        }
        let value: u64 = before + 1;
        table_insert(&mut self.table, key, value);
        Ok(Issued { value, record: Record { key, value: before } })
    }

    /// Replays one record of the journal.
    pub fn apply(&mut self, r: &Record)
        ensures
            final(self)@ == spec_apply(old(self)@, *r),
    {
        let before: u64 = self.current(r.key);
        let issued: u64 = if r.value == u64::MAX {
            r.value
        } else {
            r.value + 1
        };
        if before < issued {
            table_insert(&mut self.table, r.key, issued);
        }
    }

    /// Replays the whole records of one segment, in order. A torn record at
    /// the end of the segment is ignored.
    pub fn recover(&mut self, segment: &[u8])
        ensures
            final(self)@ == spec_replay(old(self)@, spec_records(segment@)),
    {
        let n: usize = segment.len() / RECORD_LEN;
        let ghost rs = spec_records(segment@);
        let mut i: usize = 0;
        assert(rs.take(0) =~= Seq::<Record>::empty());
        while i < n
            invariant
                n == record_count(segment@.len()),
                segment@.len() <= usize::MAX,
                rs == spec_records(segment@),
                i <= n,
                self@ == spec_replay(old(self)@, rs.take(i as int)),
            decreases n - i,
        {
            assert((i + 1) * 24 <= segment@.len()) by (nonlinear_arith)
                requires
                    i < n,
                    n == segment@.len() / 24,
            ;
            let r = decode_record(segment, i * RECORD_LEN);
            self.apply(&r);
            proof {
                let next = rs.take(i + 1);
                assert(next.drop_last() =~= rs.take(i as int));
                assert(next.last() == r);
            }
            i = i + 1;
        }
        assert(rs.take(n as int) =~= rs);
    }
}

/// Issuing for one key leaves the counter of every other key as it was.
pub proof fn lemma_issue_frame(m: Map<u128, u64>, key: u128, other: u128)
    requires
        other != key,
    ensures
        last(spec_issue(m, key), other) == last(m, other),
{
}

/// Replaying a record lowers no counter, and raises the counter of its key
/// to at least the number that was issued with it.
pub proof fn lemma_apply_raises(m: Map<u128, u64>, r: Record, k: u128)
    ensures
        last(spec_apply(m, r), k) >= last(m, k),
        last(spec_apply(m, r), r.key) >= issued_with(r.value),
{
}

/// Replaying records lowers no counter.
pub proof fn lemma_replay_monotone(m: Map<u128, u64>, rs: Seq<Record>, k: u128)
    ensures
        last(spec_replay(m, rs), k) >= last(m, k),
    decreases rs.len(),
{
    if rs.len() > 0 {
        lemma_replay_monotone(m, rs.drop_last(), k);
        lemma_apply_raises(spec_replay(m, rs.drop_last()), rs.last(), k);
    }
}

/// After a restart no number comes back: whatever the counters were before
/// the replay, the counter of each replayed record's key ends at or above
/// the number issued with that record, so that the next number issued for
/// that key is strictly greater.
pub proof fn lemma_recovery_exceeds(m: Map<u128, u64>, rs: Seq<Record>, i: int)
    requires
        0 <= i < rs.len(),
    ensures
        last(spec_replay(m, rs), rs[i].key) >= issued_with(rs[i].value),
    decreases rs.len(),
{
    let before = spec_replay(m, rs.drop_last());
    if i == rs.len() - 1 {
        lemma_apply_raises(before, rs.last(), rs[i].key);
    } else {
        lemma_recovery_exceeds(m, rs.drop_last(), i);
        lemma_apply_raises(before, rs.last(), rs[i].key);
    }
}

/// A run of issues moves each counter up by the number of calls for its key,
/// however the calls for different keys are interleaved.
pub proof fn lemma_run_counts(m: Map<u128, u64>, keys: Seq<u128>, k: u128)
    requires
        fits(m, keys),
    ensures
        last(spec_run(m, keys), k) == last(m, k) + occurrences(keys, k),
    decreases keys.len(),
{
    if keys.len() > 0 {
        lemma_fits_prefix(m, keys);
        lemma_run_counts(m, keys.drop_last(), k);
        lemma_run_counts(m, keys.drop_last(), keys.last());
        assert(last(m, keys.last()) + occurrences(keys, keys.last()) <= u64::MAX);
    }
}

/// Where a run fits, the run without its last call fits.
pub proof fn lemma_fits_prefix(m: Map<u128, u64>, keys: Seq<u128>)
    requires
        keys.len() > 0,
        fits(m, keys),
    ensures
        fits(m, keys.drop_last()),
{
    assert forall|k: u128|
        last(m, k) + #[trigger] occurrences(keys.drop_last(), k) <= u64::MAX by {
        assert(last(m, k) + occurrences(keys, k) <= u64::MAX);
    }
}

/// Where a run fits, each of its beginnings fits.
pub proof fn lemma_fits_take(m: Map<u128, u64>, keys: Seq<u128>, i: int)
    requires
        0 <= i <= keys.len(),
        fits(m, keys),
    ensures
        fits(m, keys.take(i)),
        forall|k: u128| occurrences(keys.take(i), k) <= occurrences(keys, k),
    decreases keys.len() - i,
{
    if i == keys.len() {
        assert(keys.take(i) =~= keys);
    } else {
        lemma_fits_take(m, keys, i + 1);
        let longer = keys.take(i + 1);
        assert(longer.drop_last() =~= keys.take(i));
        lemma_fits_prefix(m, longer);
    }
}

/// Monotonicity: in any interleaving of calls, the calls for one key return
/// the numbers that follow its counter, one after the other. Call `i`
/// returns the counter at the start plus the number of calls for its key up
/// to and including `i`; so the `n` calls for a key whose counter stood at
/// `v` return exactly `v + 1` to `v + n`, each once, in call order.
pub proof fn lemma_issued_values(m: Map<u128, u64>, keys: Seq<u128>, i: int)
    requires
        0 <= i < keys.len(),
        fits(m, keys),
    ensures
        issued_at(m, keys, i) == last(m, keys[i]) + occurrences(keys.take(i + 1), keys[i]),
        last(m, keys[i]) + 1 <= issued_at(m, keys, i) <= last(m, keys[i]) + occurrences(
            keys,
            keys[i],
        ),
{
    lemma_fits_take(m, keys, i);
    lemma_fits_take(m, keys, i + 1);
    lemma_run_counts(m, keys.take(i), keys[i]);
    let longer = keys.take(i + 1);
    assert(longer.drop_last() =~= keys.take(i));
    assert(longer.last() == keys[i]);
}

/// Of two calls for one key, the later returns the greater number.
pub proof fn lemma_issued_increasing(m: Map<u128, u64>, keys: Seq<u128>, i: int, j: int)
    requires
        0 <= i < j < keys.len(),
        keys[i] == keys[j],
        fits(m, keys),
    ensures
        issued_at(m, keys, i) < issued_at(m, keys, j),
{
    lemma_issued_values(m, keys, i);
    lemma_issued_values(m, keys, j);
    lemma_occurrences_take_monotone(keys, keys[i], i + 1, j);
    let longer = keys.take(j + 1);
    assert(longer.drop_last() =~= keys.take(j));
    assert(longer.last() == keys[j]);
}

/// A longer beginning of a run holds a key at least as often.
pub proof fn lemma_occurrences_take_monotone(keys: Seq<u128>, k: u128, i: int, j: int)
    requires
        0 <= i <= j <= keys.len(),
    ensures
        occurrences(keys.take(i), k) <= occurrences(keys.take(j), k),
    decreases j - i,
{
    if i < j {
        lemma_occurrences_take_monotone(keys, k, i, j - 1);
        let longer = keys.take(j);
        assert(longer.drop_last() =~= keys.take(j - 1));
    }
}

/// Recovery is exact: replaying the journal of a run over the counters that
/// the run started from gives the counters that the run ended with.
pub proof fn lemma_recovery_exact(m: Map<u128, u64>, keys: Seq<u128>)
    requires
        fits(m, keys),
    ensures
        spec_journal(m, keys).len() == keys.len(),
        spec_replay(m, spec_journal(m, keys)) == spec_run(m, keys),
    decreases keys.len(),
{
    if keys.len() > 0 {
        let shorter = keys.drop_last();
        lemma_fits_prefix(m, keys);
        lemma_recovery_exact(m, shorter);
        lemma_run_counts(m, shorter, keys.last());
        assert(last(m, keys.last()) + occurrences(keys, keys.last()) <= u64::MAX);
        let journal = spec_journal(m, keys);
        assert(journal.drop_last() =~= spec_journal(m, shorter));
    }
}

/// A shard of the service: its counters, and whether it still serves.
pub struct Shard {
    store: SeqnumStore,
    stopped: bool,
}

impl Shard {
    /// The counters of the shard.
    pub closed spec fn counters(&self) -> Map<u128, u64> {
        self.store@
    }

    /// Whether a journal write has failed.
    pub closed spec fn stopped(&self) -> bool {
        self.stopped
    }

    /// A shard that serves and has issued nothing.
    pub fn new() -> (shard: Shard)
        ensures
            shard.counters() == empty_entries(),
            !shard.stopped(),
    {
        Shard { store: SeqnumStore::new(), stopped: false }
    }

    /// Whether a journal write has failed.
    pub fn is_stopped(&self) -> (b: bool)
        ensures
            b == self.stopped(),
    {
        self.stopped
    }

    /// The last number issued for `key`, 0 where none was.
    pub fn current(&self, key: u128) -> (v: u64)
        ensures
            v == last(self.counters(), key),
    {
        self.store.current(key)
    }

    /// Replays one segment of the journal into the counters.
    pub fn recover(&mut self, segment: &[u8])
        ensures
            final(self).counters() == spec_replay(old(self).counters(), spec_records(segment@)),
            final(self).stopped() == old(self).stopped(),
    {
        self.store.recover(segment);
    }

    /// Issues the next number for `key`, unless the shard has stopped: a
    /// stopped shard refuses every increment and changes nothing.
    pub fn next(&mut self, key: u128) -> (r: Result<Issued, SeqnumError>)
        ensures
            final(self).stopped() == old(self).stopped(),
            old(self).stopped() ==> r == Err::<Issued, SeqnumError>(SeqnumError::JournalError)
                && final(self).counters() == old(self).counters(),
            !old(self).stopped() && last(old(self).counters(), key) == u64::MAX ==> r
                == Err::<Issued, SeqnumError>(SeqnumError::Exhausted)
                && final(self).counters() == old(self).counters(),
            !old(self).stopped() && last(old(self).counters(), key) < u64::MAX
                ==> final(self).counters() == spec_issue(old(self).counters(), key)
                && r == Ok::<Issued, SeqnumError>(
                (Issued {
                    value: (last(old(self).counters(), key) + 1) as u64,
                    record: (Record { key, value: last(old(self).counters(), key) }),
                }),
            ),
    {
        if self.stopped {
            return Err(SeqnumError::JournalError);
        }
        self.store.next(key)
    }

    /// Records the outcome of a journal write. A failed write stops the
    /// shard for good; the counters stay as they are.
    pub fn journal_written(&mut self, ok: bool)
        ensures
            final(self).counters() == old(self).counters(),
            final(self).stopped() == (old(self).stopped() || !ok),
    {
        if !ok {
            self.stopped = true;
        }
    }
}

} // verus!
