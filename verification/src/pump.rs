//! The stream pump: the task that shuttles frames between one stream and
//! the queues of its connection.
//!
//! ```text
//!   [Open] --read error / peer close--> [Closing] --drained--> [Closed]
//!   [Open] --queue closed------------> [Closing]
//! ```
//!
//! The pump itself waits and writes; this file decides. Whoever runs the
//! pump reports what happened as an `Event` and carries out the `Action`
//! that comes back.

use vstd::prelude::*;

verus! {

/// Where a pump stands.
#[derive(Clone, Copy, Debug, PartialEq, Eq, Structural)]
pub enum PumpState {
    /// Frames flow both ways.
    Open,
    /// The pump writes out what is left in the outbound queue.
    Closing,
    /// The pump has exited.
    Closed,
}

/// What the pump has seen.
#[derive(Clone, Copy, Debug, PartialEq, Eq, Structural)]
pub enum Event {
    /// A whole frame was read from the stream.
    FrameRead,
    /// Reading failed: an I/O error, a malformed frame, or the peer closed
    /// the stream.
    ReadFailed,
    /// The inbound queue took the frame.
    Forwarded,
    /// The inbound queue is closed: its consumer is gone.
    InboundClosed,
    /// A message waits in the outbound queue.
    OutboundReady,
    /// The outbound queue is closed and empty.
    OutboundClosed,
    /// The message was written to the stream.
    Written,
    /// Writing to the stream failed.
    WriteFailed,
    /// A message that was sent with a deadline saw no reply in time.
    Expired,
    /// The queue of expired messages is closed: its consumer is gone.
    TimeoutClosed,
    /// Nothing is left in the outbound queue.
    Drained,
}

/// What the pump does next.
#[derive(Clone, Copy, Debug, PartialEq, Eq, Structural)]
pub enum Action {
    /// Hand the frame that was read to the inbound queue.
    ForwardInbound,
    /// Write the waiting message to the stream.
    Write,
    /// Hand the expired message to the queue of expired messages.
    ForwardExpired,
    /// Go on waiting.
    Wait,
    /// Stop reading, and write out what the outbound queue still holds;
    /// a write that fails is passed over.
    Drain,
    /// Leave, and drop this stream's end of its session.
    Exit,
}

/// The state after an event, and what to do.
#[derive(Clone, Copy, Debug, PartialEq, Eq, Structural)]
pub struct Turn {
    pub state: PumpState,
    pub action: Action,
}

/// What a pump does on an event.
pub open spec fn spec_step(state: PumpState, event: Event) -> Turn {
    match state {
        PumpState::Open => match event {
            Event::FrameRead => Turn { state: PumpState::Open, action: Action::ForwardInbound },
            Event::OutboundReady => Turn { state: PumpState::Open, action: Action::Write },
            Event::Expired => Turn { state: PumpState::Open, action: Action::ForwardExpired },
            Event::Forwarded | Event::Written => Turn {
                state: PumpState::Open,
                action: Action::Wait,
            },
            Event::ReadFailed
            | Event::InboundClosed
            | Event::OutboundClosed
            | Event::WriteFailed
            | Event::TimeoutClosed => Turn { state: PumpState::Closing, action: Action::Drain },
            Event::Drained => Turn { state: PumpState::Open, action: Action::Wait },
        },
        PumpState::Closing => match event {
            Event::OutboundReady => Turn { state: PumpState::Closing, action: Action::Write },
            Event::Drained | Event::OutboundClosed => Turn {
                state: PumpState::Closed,
                action: Action::Exit,
            },
            _ => Turn { state: PumpState::Closing, action: Action::Wait },
        },
        PumpState::Closed => Turn { state: PumpState::Closed, action: Action::Exit },
    }
}

/// The state after a run of events.
pub open spec fn spec_after(state: PumpState, events: Seq<Event>) -> PumpState
    decreases events.len(),
{
    if events.len() == 0 {
        state
    } else {
        spec_step(spec_after(state, events.drop_last()), events.last()).state
    }
}

/// How far a pump has come: 0 open, 1 closing, 2 closed.
pub open spec fn rank(state: PumpState) -> int {
    match state {
        PumpState::Open => 0,
        PumpState::Closing => 1,
        PumpState::Closed => 2,
    }
}

/// What a pump does on an event.
pub fn step(state: PumpState, event: Event) -> (turn: Turn)
    ensures
        turn == spec_step(state, event),
{
    match state {
        PumpState::Open => match event {
            Event::FrameRead => Turn { state: PumpState::Open, action: Action::ForwardInbound },
            Event::OutboundReady => Turn { state: PumpState::Open, action: Action::Write },
            Event::Expired => Turn { state: PumpState::Open, action: Action::ForwardExpired },
            Event::Forwarded => Turn { state: PumpState::Open, action: Action::Wait },
            Event::Written => Turn { state: PumpState::Open, action: Action::Wait },
            Event::Drained => Turn { state: PumpState::Open, action: Action::Wait },
            Event::ReadFailed => Turn { state: PumpState::Closing, action: Action::Drain },
            Event::InboundClosed => Turn { state: PumpState::Closing, action: Action::Drain },
            Event::OutboundClosed => Turn { state: PumpState::Closing, action: Action::Drain },
            Event::WriteFailed => Turn { state: PumpState::Closing, action: Action::Drain },
            Event::TimeoutClosed => Turn { state: PumpState::Closing, action: Action::Drain },
        },
        PumpState::Closing => match event {
            Event::OutboundReady => Turn { state: PumpState::Closing, action: Action::Write },
            Event::Drained => Turn { state: PumpState::Closed, action: Action::Exit },
            Event::OutboundClosed => Turn { state: PumpState::Closed, action: Action::Exit },
            _ => Turn { state: PumpState::Closing, action: Action::Wait },
        },
        PumpState::Closed => Turn { state: PumpState::Closed, action: Action::Exit },
    }
}

/// A pump never goes back, and never skips the drain: each event leaves it
/// where it is or moves it one state on.
pub proof fn lemma_step_forward(state: PumpState, event: Event)
    ensures
        rank(state) <= rank(spec_step(state, event).state) <= rank(state) + 1,
{
}

/// A pump that has exited stays so, whatever happens.
pub proof fn lemma_closed_is_final(events: Seq<Event>)
    ensures
        spec_after(PumpState::Closed, events) == PumpState::Closed,
    decreases events.len(),
{
    if events.len() > 0 {
        lemma_closed_is_final(events.drop_last());
    }
}

/// Nothing is read, and nothing handed to a queue, once a pump has left the
/// open state: it only writes out what the outbound queue holds.
pub proof fn lemma_no_forward_after_open(state: PumpState, event: Event)
    requires
        state != PumpState::Open,
    ensures
        spec_step(state, event).action != Action::ForwardInbound,
        spec_step(state, event).action != Action::ForwardExpired,
        spec_step(state, event).action != Action::Drain,
{
}

/// Order within a stream: while a pump is open it neither drops nor holds
/// back what it is given. Each frame read is handed on and each waiting
/// message written at once, in the order in which they came.
pub proof fn lemma_open_passes_on(event: Event)
    ensures
        event == Event::FrameRead ==> spec_step(PumpState::Open, event) == (Turn {
            state: PumpState::Open,
            action: Action::ForwardInbound,
        }),
        event == Event::OutboundReady ==> spec_step(PumpState::Open, event) == (Turn {
            state: PumpState::Open,
            action: Action::Write,
        }),
{
}

} // verus!
