//! The journal of a shard on disk: segments of 24-byte records in one
//! directory, named `seqnum-NNNNNN.bin`, rolled by size.
//!
//! Reading and writing the files belongs to whoever runs the shard. This
//! file says which files are segments, which segment the next record goes
//! to, and that what was appended is what recovery reads.

use vstd::prelude::*;
use vstd::string::StringSliceAdditionalSpecFns;
use crate::seqnum::{
    lemma_record_roundtrip, record_bytes, record_count, record_from_bytes, spec_records, Record,
    RECORD_LEN,
};

verus! {

/// The size at which a segment is full, unless told otherwise: 128 MiB.
pub const SEGMENT_LIMIT: u64 = 0x800_0000;

/// What the name of every segment starts with: `seqnum-`.
pub open spec fn spec_prefix() -> Seq<u8> {
    seq![115u8, 101u8, 113u8, 110u8, 117u8, 109u8, 45u8]
}

/// Whether a file of this name is a segment: its name starts with
/// `seqnum-`.
pub open spec fn spec_is_segment_name(name: Seq<u8>) -> bool {
    name.len() >= 7 && name.subrange(0, 7) == spec_prefix()
}

/// The bytes of a journal: the bytes of its records, one after the other.
pub open spec fn journal_bytes(rs: Seq<Record>) -> Seq<u8>
    decreases rs.len(),
{
    if rs.len() == 0 {
        Seq::empty()
    } else {
        journal_bytes(rs.drop_last()) + record_bytes(rs.last())
    }
}

/// A journal of `n` records is `24 * n` bytes long.
pub proof fn lemma_journal_len(rs: Seq<Record>)
    ensures
        journal_bytes(rs).len() == RECORD_LEN * rs.len(),
    decreases rs.len(),
{
    if rs.len() > 0 {
        lemma_journal_len(rs.drop_last());
        lemma_record_roundtrip(rs.last());
    }
}

/// Record `i` of a journal is read back from its place, whatever follows
/// the journal.
pub proof fn lemma_journal_record(rs: Seq<Record>, tail: Seq<u8>, i: int)
    requires
        0 <= i < rs.len(),
    ensures
        record_from_bytes(journal_bytes(rs) + tail, i * RECORD_LEN) == rs[i],
    decreases rs.len(),
{
    let rest = rs.drop_last();
    let last = record_bytes(rs.last());
    lemma_journal_len(rest);
    lemma_record_roundtrip(rs.last());
    let all = journal_bytes(rs) + tail;
    if i < rs.len() - 1 {
        lemma_journal_record(rest, last + tail, i);
        assert(all =~= journal_bytes(rest) + (last + tail));
        assert(rest[i] == rs[i]);
    } else {
        let at = i * RECORD_LEN;
        assert(at == journal_bytes(rest).len());
        assert(all.subrange(at, at + 24) =~= last);
        lemma_record_at(all, at, last);
    }
}

/// A record is read from its 24 bytes alone.
proof fn lemma_record_at(b: Seq<u8>, at: int, r: Seq<u8>)
    requires
        0 <= at,
        at + 24 <= b.len(),
        b.subrange(at, at + 24) == r,
    ensures
        record_from_bytes(b, at) == record_from_bytes(r, 0),
{
    assert forall|k: int| 0 <= k < 24 implies b[at + k] == r[k] by {
        assert(b.subrange(at, at + 24)[k] == b[at + k]);
    }
}

/// Recovery reads what was appended: a segment that holds the bytes of a
/// journal, and behind them at most a torn record, gives back the records
/// of the journal, in order.
pub proof fn lemma_records_of_journal(rs: Seq<Record>, torn: Seq<u8>)
    requires
        torn.len() < RECORD_LEN,
    ensures
        spec_records(journal_bytes(rs) + torn) == rs,
{
    lemma_journal_len(rs);
    let b = journal_bytes(rs) + torn;
    assert(record_count(b.len()) == rs.len()) by (nonlinear_arith)
        requires
            b.len() == 24 * rs.len() + torn.len(),
            torn.len() < 24,
            record_count(b.len()) == b.len() / 24,
    ;
    assert forall|i: int| 0 <= i < rs.len() implies spec_records(b)[i] == rs[i] by {
        lemma_journal_record(rs, torn, i);
    }
    assert(spec_records(b) =~= rs);
}

/// Whether a file of this name is a segment.
pub fn is_segment_name(name: &str) -> (b: bool)
    ensures
        b == spec_is_segment_name(name.spec_bytes()),
{
    let bytes = name.as_bytes();
    if bytes.len() < 7 {
        return false;
    }
    let b = bytes[0] == 115 && bytes[1] == 101 && bytes[2] == 113 && bytes[3] == 110 && bytes[4]
        == 117 && bytes[5] == 109 && bytes[6] == 45;
    proof {
        let head = bytes@.subrange(0, 7);
        if b {
            assert(head =~= spec_prefix());
        } else {
            assert(head[0] == bytes@[0] && head[1] == bytes@[1] && head[2] == bytes@[2] && head[3]
                == bytes@[3] && head[4] == bytes@[4] && head[5] == bytes@[5] && head[6]
                == bytes@[6]);
        }
    }
    b
}

/// Number of segments that have a name: the names hold six digits.
pub const SEGMENT_NAMES: u64 = 1_000_000;

/// The six digits of a segment number, most significant first.
pub open spec fn spec_digits(index: u64) -> Seq<u8> {
    seq![
        (48 + index / 100_000 % 10) as u8,
        (48 + index / 10_000 % 10) as u8,
        (48 + index / 1_000 % 10) as u8,
        (48 + index / 100 % 10) as u8,
        (48 + index / 10 % 10) as u8,
        (48 + index % 10) as u8,
    ]
}

/// The name of segment `index`, as bytes: `seqnum-`, its number in six
/// digits, `.bin`.
pub open spec fn spec_segment_name(index: u64) -> Seq<u8> {
    spec_prefix() + spec_digits(index) + seq![46u8, 98u8, 105u8, 110u8]
}

/// The name of a segment is the name of a segment.
pub proof fn lemma_segment_name_is_segment(index: u64)
    ensures
        spec_is_segment_name(spec_segment_name(index)),
{
    let name = spec_segment_name(index);
    assert(name.subrange(0, 7) =~= spec_prefix());
}

/// The name of segment `index`, as bytes. A number of more than six digits
/// has no name.
pub fn segment_name(index: u64) -> (name: Option<Vec<u8>>)
    ensures
        index >= SEGMENT_NAMES ==> name is None,
        index < SEGMENT_NAMES ==> name is Some && name->Some_0@ == spec_segment_name(index),
{
    if index >= SEGMENT_NAMES {
        return None;
    }
    let mut name: Vec<u8> = Vec::new();
    name.push(115);
    name.push(101);
    name.push(113);
    name.push(110);
    name.push(117);
    name.push(109);
    name.push(45);
    name.push((48 + index / 100_000 % 10) as u8);
    name.push((48 + index / 10_000 % 10) as u8);
    name.push((48 + index / 1_000 % 10) as u8);
    name.push((48 + index / 100 % 10) as u8);
    name.push((48 + index / 10 % 10) as u8);
    name.push((48 + index % 10) as u8);
    name.push(46);
    name.push(98);
    name.push(105);
    name.push(110);
    assert(name@ =~= spec_segment_name(index));
    Some(name)
}

/// Where the journal stands: the number of the active segment and its size.
#[derive(Clone, Copy, Debug, PartialEq, Eq, Structural)]
pub struct Segments {
    /// The number of the active segment.
    pub index: u64,
    /// Number of bytes in the active segment.
    pub size: u64,
    /// The size at which a segment is full.
    pub limit: u64,
}

/// Where the journal stands after one more record: the record goes to the
/// active segment if it fits there or the segment is empty, else to a new
/// one.
pub open spec fn spec_place(s: Segments) -> Segments {
    if s.size > 0 && s.size + RECORD_LEN > s.limit && s.index < u64::MAX {
        Segments { index: (s.index + 1) as u64, size: RECORD_LEN as u64, limit: s.limit }
    } else if s.size + RECORD_LEN > u64::MAX {
        s
    } else {
        Segments { size: (s.size + RECORD_LEN) as u64, ..s }
    }
}

impl Segments {
    /// A journal that starts with an empty segment numbered `index`.
    pub fn new(index: u64, limit: u64) -> (s: Segments)
        ensures
            s == (Segments { index, size: 0, limit }),
    {
        Segments { index, size: 0, limit }
    }

    /// Makes room for one record and returns the number of the segment
    /// that it is appended to.
    pub fn place(&mut self) -> (index: u64)
        ensures
            *final(self) == spec_place(*old(self)),
            index == final(self).index,
    {
        if self.size > 0 && self.size > self.limit.saturating_sub(24) && self.index < u64::MAX {
            self.index = self.index + 1;
            self.size = 24;
        } else if self.size <= u64::MAX - 24 {
            self.size = self.size + 24;
        }
        self.index
    }
}

/// No segment grows beyond its limit once a record fits in a segment at
/// all, and the active segment never goes back.
pub proof fn lemma_place_bounded(s: Segments)
    requires
        s.limit >= RECORD_LEN,
        s.size <= s.limit,
        s.index < u64::MAX,
    ensures
        spec_place(s).size <= s.limit,
        spec_place(s).size > 0,
        spec_place(s).index >= s.index,
        spec_place(s).limit == s.limit,
{
}

} // verus!
