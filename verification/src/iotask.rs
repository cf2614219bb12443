//! The I/O task of a message node: it stamps each point-to-point message
//! with the next sequence number of its conversation and hands it on to be
//! persisted.

use vstd::prelude::*;
use crate::key::{key, spec_key};
use crate::msg::{Msg, MsgView};
use crate::seqnum::{last, spec_issue, Record, SeqnumError, Shard};

verus! {

/// What the handlers hand to the I/O task.
#[derive(Debug, PartialEq, Eq)]
pub enum IoTaskMsg {
    /// A message from one user to another.
    Direct(Msg),
    /// A message to a group.
    Broadcast(Msg),
}

/// What the I/O task hands on: the envelope to persist, and the journal
/// record of its sequence number, if one was issued.
#[derive(Debug, PartialEq, Eq)]
pub struct Persisted {
    pub msg: Msg,
    pub record: Option<Record>,
}

/// `Persisted` as a mathematical value.
pub ghost struct PersistedView {
    pub msg: MsgView,
    pub record: Option<Record>,
}

impl View for Persisted {
    type V = PersistedView;

    open spec fn view(&self) -> PersistedView {
        PersistedView { msg: self.msg@, record: self.record }
    }
}

/// The result of a step, the envelope taken as a mathematical value.
pub open spec fn step_view(r: Result<Persisted, SeqnumError>) -> Result<
    PersistedView,
    SeqnumError,
> {
    match r {
        Ok(p) => Ok(p@),
        Err(e) => Err(e),
    }
}

/// What one step of the I/O task comes to, given the counters and whether
/// the shard has stopped. A message to a group passes as it is. A message
/// between users gets the next number of their conversation, whichever of
/// the two sent it.
pub open spec fn spec_step(m: MsgView, direct: bool, counters: Map<u128, u64>, stopped: bool)
    -> Result<PersistedView, SeqnumError> {
    let k = spec_key(m.sender, m.receiver);
    if !direct {
        Ok(PersistedView { msg: m, record: None })
    } else if stopped {
        Err(SeqnumError::JournalError)
    } else if last(counters, k) == u64::MAX {
        Err(SeqnumError::Exhausted)
    } else {
        Ok(
            PersistedView {
                msg: MsgView { seqnum: (last(counters, k) + 1) as u64, ..m },
                record: Some(Record { key: k, value: last(counters, k) }),
            },
        )
    }
}

/// One step of the I/O task.
pub fn io_task(shard: &mut Shard, item: IoTaskMsg) -> (r: Result<Persisted, SeqnumError>)
    ensures
        final(shard).stopped() == old(shard).stopped(),
        match item {
            IoTaskMsg::Direct(m) => step_view(r) == spec_step(
                m@,
                true,
                old(shard).counters(),
                old(shard).stopped(),
            ) && final(shard).counters() == (if r is Ok {
                spec_issue(old(shard).counters(), spec_key(m.sender, m.receiver))
            } else {
                old(shard).counters()
            }),
            IoTaskMsg::Broadcast(m) => step_view(r) == spec_step(
                m@,
                false,
                old(shard).counters(),
                old(shard).stopped(),
            ) && final(shard).counters() == old(shard).counters(),
        },
{
    match item {
        IoTaskMsg::Broadcast(m) => Ok(Persisted { msg: m, record: None }),
        IoTaskMsg::Direct(m) => {
            let k = key(m.sender, m.receiver);
            match shard.next(k) {
                Err(e) => Err(e),
                Ok(issued) => {
                    let mut stamped = m;
                    stamped.seqnum = issued.value;
                    Ok(Persisted { msg: stamped, record: Some(issued.record) })
                },
            }
        },
    }
}

} // verus!
