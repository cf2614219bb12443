//! The bounded channel that queues are made of: the two ends that
//! `async_channel::bounded` hands out, reached only through the functions of
//! this file.

use vstd::prelude::*;
use async_channel::{Receiver, Sender, TryRecvError, TrySendError};

verus! {

/// `async_channel::Sender`, the sending end of a channel: opaque.
#[verifier::external_type_specification]
#[verifier::external_body]
#[verifier::reject_recursive_types(T)]
pub struct ExSender<T>(Sender<T>);

/// `async_channel::Receiver`, the receiving end of a channel: opaque.
#[verifier::external_type_specification]
#[verifier::external_body]
#[verifier::reject_recursive_types(T)]
pub struct ExReceiver<T>(Receiver<T>);

/// What a channel holds: the frames that wait in it, oldest first.
pub uninterp spec fn waiting(ends: (Sender<Vec<u8>>, Receiver<Vec<u8>>)) -> Seq<Seq<u8>>;

/// The number of frames that the channel was made to hold.
pub uninterp spec fn depth(ends: (Sender<Vec<u8>>, Receiver<Vec<u8>>)) -> nat;

/// Whether the channel has been closed.
pub uninterp spec fn shut(ends: (Sender<Vec<u8>>, Receiver<Vec<u8>>)) -> bool;

/// Whether the two ends are the only ends of one channel: the pair as
/// `async_channel::bounded` made it, of which neither end was cloned. Only
/// then is what goes in at one end what comes out at the other.
pub uninterp spec fn sole(ends: (Sender<Vec<u8>>, Receiver<Vec<u8>>)) -> bool;

/// What an attempt to send comes to.
pub enum Sent {
    /// The frame waits in the channel.
    Accepted,
    /// The channel holds as many frames as it can: here is the frame back.
    Full(Vec<u8>),
    /// The channel is closed: here is the frame back.
    Closed(Vec<u8>),
}

/// What an attempt to receive comes to.
pub enum Received {
    /// The frame that had waited longest.
    Frame(Vec<u8>),
    /// Nothing waits, and the channel is open.
    Empty,
    /// Nothing waits, and the channel is closed.
    Closed,
}

/// What an attempt to send `frame` comes to: a closed channel hands it
/// back, so does an open one that is full, any other accepts it.
pub open spec fn spec_sent(shut: bool, full: bool, frame: Vec<u8>) -> Sent {
    if shut {
        Sent::Closed(frame)
    } else if full {
        Sent::Full(frame)
    } else {
        Sent::Accepted
    }
}

/// `async_channel::bounded`: an open, empty channel that holds at most
/// `cap` frames. The outside function panics on a capacity of zero.
#[verifier::external_body]
pub(crate) fn channel_new(cap: usize) -> (ends: (Sender<Vec<u8>>, Receiver<Vec<u8>>))
    requires
        cap > 0,
    ensures
        sole(ends),
        waiting(ends).len() == 0,
        depth(ends) == cap,
        !shut(ends),
{
    async_channel::bounded(cap)
}

/// `Sender::try_send`: a closed channel hands the frame back; so does an
/// open one that is full; any other takes the frame behind those that wait.
/// Nothing else changes.
#[verifier::external_body]
pub(crate) fn channel_try_send(ends: &mut (Sender<Vec<u8>>, Receiver<Vec<u8>>), frame: Vec<u8>)
    -> (sent: Sent)
    requires
        sole(*old(ends)),
    ensures
        sole(*final(ends)),
        depth(*final(ends)) == depth(*old(ends)),
        shut(*final(ends)) == shut(*old(ends)),
        sent == spec_sent(
            shut(*old(ends)),
            waiting(*old(ends)).len() >= depth(*old(ends)),
            frame,
        ),
        waiting(*final(ends)) == (if sent is Accepted {
            waiting(*old(ends)).push(frame@)
        } else {
            waiting(*old(ends))
        }),
{
    match ends.0.try_send(frame) {
        Ok(()) => Sent::Accepted,
        Err(TrySendError::Full(back)) => Sent::Full(back),
        Err(TrySendError::Closed(back)) => Sent::Closed(back),
    }
}

/// `Receiver::try_recv`: hands out the frame that has waited longest, also
/// from a closed channel; where nothing waits, tells whether the channel is
/// closed. Nothing else changes.
#[verifier::external_body]
pub(crate) fn channel_try_recv(ends: &mut (Sender<Vec<u8>>, Receiver<Vec<u8>>)) -> (got: Received)
    requires
        sole(*old(ends)),
    ensures
        sole(*final(ends)),
        depth(*final(ends)) == depth(*old(ends)),
        shut(*final(ends)) == shut(*old(ends)),
        waiting(*old(ends)).len() > 0 ==> got is Frame && got->Frame_0@ == waiting(*old(ends))[0]
            && waiting(*final(ends)) == waiting(*old(ends)).drop_first(),
        waiting(*old(ends)).len() == 0 ==> waiting(*final(ends)) == waiting(*old(ends)) && (if shut(
            *old(ends),
        ) {
            got is Closed
        } else {
            got is Empty
        }),
{
    match ends.1.try_recv() {
        Ok(frame) => Received::Frame(frame),
        Err(TryRecvError::Empty) => Received::Empty,
        Err(TryRecvError::Closed) => Received::Closed,
    }
}

/// `Sender::close`: closes the channel and tells whether this call did it.
/// The frames that wait stay.
#[verifier::external_body]
pub(crate) fn channel_close(ends: &mut (Sender<Vec<u8>>, Receiver<Vec<u8>>)) -> (did: bool)
    requires
        sole(*old(ends)),
    ensures
        sole(*final(ends)),
        depth(*final(ends)) == depth(*old(ends)),
        waiting(*final(ends)) == waiting(*old(ends)),
        shut(*final(ends)),
        did == !shut(*old(ends)),
{
    ends.0.close()
}

} // verus!
