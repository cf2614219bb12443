//! Bounded queues of frames, with backpressure: a full queue takes nothing
//! and loses nothing, and takes again as soon as one frame is drained.

use vstd::prelude::*;
use async_channel::{Receiver, Sender};
use crate::channel::{
    channel_close, channel_new, channel_try_recv, channel_try_send, depth, shut, sole, waiting,
    Received, Sent,
};
use crate::msg::{decode, spec_decode, spec_encode, FrameError, Msg};

verus! {

/// Why a queue takes no frame.
#[derive(Clone, Copy, Debug, PartialEq, Eq, Structural)]
pub enum SendError {
    /// The queue is full: the producer has to wait until a frame is drained.
    Full,
    /// The queue is closed: its consumer is gone.
    QueueClosed,
    /// The message has no bytes.
    Frame(FrameError),
}

/// Why a queue gives no frame.
#[derive(Clone, Copy, Debug, PartialEq, Eq, Structural)]
pub enum RecvError {
    /// Nothing waits.
    Empty,
    /// Nothing waits and nothing will come: the queue is closed.
    QueueClosed,
    /// What waited was no message.
    Frame(FrameError),
}

/// A queue as a mathematical value.
pub ghost struct QueueView {
    /// The frames that wait, oldest first.
    pub frames: Seq<Seq<u8>>,
    /// How many frames the queue holds at most.
    pub depth: nat,
    /// Whether the queue is closed.
    pub closed: bool,
}

/// What sending comes to: the error, if any, and the queue after it.
pub ghost struct Sending {
    pub refused: Option<SendError>,
    pub queue: QueueView,
}

/// What receiving comes to: the frame or the error, and the queue after it.
pub ghost struct Receiving {
    pub got: Result<Seq<u8>, RecvError>,
    pub queue: QueueView,
}

/// What sending a frame comes to.
pub open spec fn spec_send(q: QueueView, frame: Seq<u8>) -> Sending {
    if q.closed {
        Sending { refused: Some(SendError::QueueClosed), queue: q }
    } else if q.frames.len() >= q.depth {
        Sending { refused: Some(SendError::Full), queue: q }
    } else {
        Sending { refused: None, queue: QueueView { frames: q.frames.push(frame), ..q } }
    }
}

/// What receiving comes to.
pub open spec fn spec_recv(q: QueueView) -> Receiving {
    if q.frames.len() > 0 {
        Receiving { got: Ok(q.frames[0]), queue: QueueView { frames: q.frames.drop_first(), ..q } }
    } else if q.closed {
        Receiving { got: Err(RecvError::QueueClosed), queue: q }
    } else {
        Receiving { got: Err(RecvError::Empty), queue: q }
    }
}

/// The queue after the frames `fs` are sent in order, those dropped that
/// the queue refuses.
pub open spec fn spec_send_all(q: QueueView, fs: Seq<Seq<u8>>) -> QueueView
    decreases fs.len(),
{
    if fs.len() == 0 {
        q
    } else {
        spec_send(spec_send_all(q, fs.drop_last()), fs.last()).queue
    }
}

/// Backpressure: an open queue of depth `k` takes `k` frames while nothing
/// is drained, in their order; it refuses the next as full and stays as it
/// is; and once one frame is drained it takes the next.
pub proof fn lemma_backpressure(k: nat, fs: Seq<Seq<u8>>, extra: Seq<u8>)
    requires
        k > 0,
        fs.len() == k,
    ensures
        spec_send_all(QueueView { frames: Seq::empty(), depth: k, closed: false }, fs) == (
        QueueView { frames: fs, depth: k, closed: false }),
        spec_send(QueueView { frames: fs, depth: k, closed: false }, extra) == (Sending {
            refused: Some(SendError::Full),
            queue: QueueView { frames: fs, depth: k, closed: false },
        }),
        spec_recv(QueueView { frames: fs, depth: k, closed: false }).got == Ok::<
            Seq<u8>,
            RecvError,
        >(fs[0]),
        spec_send(spec_recv(QueueView { frames: fs, depth: k, closed: false }).queue, extra) == (
        Sending {
            refused: None,
            queue: QueueView { frames: fs.drop_first().push(extra), depth: k, closed: false },
        }),
{
    lemma_fill(k, fs, fs.len() as int);
    assert(fs.take(fs.len() as int) =~= fs);
}

/// An open, empty queue takes frames in their order as long as it has room.
pub proof fn lemma_fill(k: nat, fs: Seq<Seq<u8>>, n: int)
    requires
        0 <= n <= fs.len(),
        n <= k,
    ensures
        spec_send_all(QueueView { frames: Seq::empty(), depth: k, closed: false }, fs.take(n))
            == (QueueView { frames: fs.take(n), depth: k, closed: false }),
    decreases n,
{
    if n == 0 {
        assert(fs.take(0) =~= Seq::<Seq<u8>>::empty());
    } else {
        lemma_fill(k, fs, n - 1);
        let cur = fs.take(n);
        assert(cur.drop_last() =~= fs.take(n - 1));
        assert(cur.last() == fs[n - 1]);
        assert(fs.take(n - 1).push(fs[n - 1]) =~= cur);
    }
}

/// The queue after `n` frames are received, those attempts passed over
/// that find nothing.
pub open spec fn spec_recv_n(q: QueueView, n: nat) -> QueueView
    decreases n,
{
    if n == 0 {
        q
    } else {
        spec_recv(spec_recv_n(q, (n - 1) as nat)).queue
    }
}

/// First in, first out: what comes out of a queue is what waits in it, in
/// its order. Receive number `i` hands out frame `i`, and nothing is lost
/// on the way.
pub proof fn lemma_fifo(q: QueueView, i: nat)
    requires
        i < q.frames.len(),
    ensures
        spec_recv_n(q, i).frames == q.frames.skip(i as int),
        spec_recv(spec_recv_n(q, i)).got == Ok::<Seq<u8>, RecvError>(q.frames[i as int]),
    decreases i,
{
    if i == 0 {
        assert(q.frames.skip(0) =~= q.frames);
    } else {
        lemma_fifo(q, (i - 1) as nat);
        let before = spec_recv_n(q, (i - 1) as nat);
        assert(before.frames.drop_first() =~= q.frames.skip(i as int));
    }
}

/// A queue never holds more than its depth, whatever is sent.
pub proof fn lemma_send_bounded(q: QueueView, frame: Seq<u8>)
    requires
        q.frames.len() <= q.depth,
    ensures
        spec_send(q, frame).queue.frames.len() <= q.depth,
        spec_send(q, frame).queue.depth == q.depth,
        spec_send(q, frame).refused is Some ==> spec_send(q, frame).queue == q,
{
}

/// A bounded queue of frames.
pub struct FrameQueue {
    ends: (Sender<Vec<u8>>, Receiver<Vec<u8>>),
}

impl View for FrameQueue {
    type V = QueueView;

    closed spec fn view(&self) -> QueueView {
        QueueView { frames: waiting(self.ends), depth: depth(self.ends), closed: shut(self.ends) }
    }
}

impl FrameQueue {
    /// The queue owns its channel, and holds no more than its depth.
    pub closed spec fn wf(&self) -> bool {
        sole(self.ends) && waiting(self.ends).len() <= depth(self.ends) && depth(self.ends) > 0
    }

    /// An open, empty queue that holds at most `depth` frames. There is no
    /// queue of depth zero.
    pub fn bounded(depth: usize) -> (q: Option<FrameQueue>)
        ensures
            depth == 0 ==> q is None,
            depth > 0 ==> q is Some && q->Some_0.wf() && q->Some_0@ == (QueueView {
                frames: Seq::empty(),
                depth: depth as nat,
                closed: false,
            }),
    {
        if depth == 0 {
            return None;
        }
        let ends = channel_new(depth);
        assert(waiting(ends) =~= Seq::<Seq<u8>>::empty());
        Some(FrameQueue { ends })
    }

    /// Puts a frame into the queue, if the queue is open and has room. A
    /// frame that is refused changes nothing.
    pub fn try_send(&mut self, frame: Vec<u8>) -> (r: Result<(), SendError>)
        requires
            old(self).wf(),
        ensures
            final(self).wf(),
            final(self)@ == spec_send(old(self)@, frame@).queue,
            match r {
                Ok(_) => spec_send(old(self)@, frame@).refused is None,
                Err(e) => spec_send(old(self)@, frame@).refused == Some(e),
            },
    {
        match channel_try_send(&mut self.ends, frame) {
            Sent::Accepted => Ok(()),
            Sent::Full(_) => Err(SendError::Full),
            Sent::Closed(_) => Err(SendError::QueueClosed),
        }
    }

    /// Takes the oldest frame out of the queue.
    pub fn try_recv(&mut self) -> (r: Result<Vec<u8>, RecvError>)
        requires
            old(self).wf(),
        ensures
            final(self).wf(),
            final(self)@ == spec_recv(old(self)@).queue,
            match r {
                Ok(frame) => spec_recv(old(self)@).got == Ok::<Seq<u8>, RecvError>(frame@),
                Err(e) => spec_recv(old(self)@).got == Err::<Seq<u8>, RecvError>(e),
            },
    {
        match channel_try_recv(&mut self.ends) {
            Received::Frame(frame) => Ok(frame),
            Received::Empty => Err(RecvError::Empty),
            Received::Closed => Err(RecvError::QueueClosed),
        }
    }

    /// Closes the queue: it takes no more frames, and its consumer finds
    /// the end behind the frames that wait. Tells whether this call closed
    /// it.
    pub fn close(&mut self) -> (did: bool)
        requires
            old(self).wf(),
        ensures
            final(self).wf(),
            final(self)@ == (QueueView { closed: true, ..old(self)@ }),
            did == !old(self)@.closed,
    {
        channel_close(&mut self.ends)
    }

    /// Puts the bytes of a message into the queue.
    pub fn send(&mut self, msg: &Msg) -> (r: Result<(), SendError>)
        requires
            old(self).wf(),
        ensures
            final(self).wf(),
            !msg@.encodable() ==> r is Err && r->Err_0 is Frame && final(self)@ == old(self)@,
            msg@.encodable() ==> final(self)@ == spec_send(old(self)@, spec_encode(msg@)).queue
                && match r {
                Ok(_) => spec_send(old(self)@, spec_encode(msg@)).refused is None,
                Err(e) => spec_send(old(self)@, spec_encode(msg@)).refused == Some(e),
            },
    {
        match msg.encode() {
            Err(e) => Err(SendError::Frame(e)),
            Ok(frame) => self.try_send(frame),
        }
    }

    /// Takes the oldest frame out of the queue and reads it as a message.
    pub fn recv(&mut self) -> (r: Result<Msg, RecvError>)
        requires
            old(self).wf(),
        ensures
            final(self).wf(),
            final(self)@ == spec_recv(old(self)@).queue,
            match spec_recv(old(self)@).got {
                Err(e) => r is Err && r->Err_0 == e,
                Ok(frame) => match spec_decode(frame) {
                    Ok(m) => r is Ok && r->Ok_0@ == m,
                    Err(e) => r is Err && r->Err_0 == RecvError::Frame(e),
                },
            },
    {
        match self.try_recv() {
            Err(e) => Err(e),
            Ok(frame) => match decode(frame.as_slice()) {
                Ok(m) => Ok(m),
                Err(e) => Err(RecvError::Frame(e)),
            },
        }
    }
}

} // verus!
