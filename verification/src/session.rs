//! What a node does with one message of one stream, from dispatch to the
//! decision what to write back, and what it does when the stream ends.

use vstd::prelude::*;
use crate::handler::{
    dispatch, lemma_first_match, spec_accepts, spec_dispatch, spec_dispatch_from, Context, Facts,
    Handler, HandlerError, InnerStates, Outcome, OutcomeView, World,
};
use crate::msg::{spec_ack, Msg, MsgView, Type, VERSION};
use crate::registry::Registry;

verus! {

/// What becomes of a message.
#[derive(Debug, PartialEq, Eq)]
pub enum Served {
    /// A handler took it: carry out its actions, write its reply unless it
    /// is of type noop.
    Done(Outcome),
    /// No handler took it: nothing is written.
    Ignored,
    /// A handler failed: write this envelope of type error.
    Rejected(Msg),
    /// The stream must be closed.
    Closed(HandlerError),
}

/// `Served` as a mathematical value.
pub ghost enum ServedView {
    Done(OutcomeView),
    Ignored,
    Rejected(MsgView),
    Closed(HandlerError),
}

impl View for Served {
    type V = ServedView;

    open spec fn view(&self) -> ServedView {
        match self {
            Served::Done(o) => ServedView::Done(o@),
            Served::Ignored => ServedView::Ignored,
            Served::Rejected(m) => ServedView::Rejected(m@),
            Served::Closed(e) => ServedView::Closed(*e),
        }
    }
}

/// What serving a message comes to: what becomes of it, and the world
/// after it.
pub ghost struct Service {
    pub served: ServedView,
    pub world: World,
}

/// The short code that stands for a failure in an envelope of type error.
pub open spec fn spec_reason(e: HandlerError) -> u8 {
    match e {
        HandlerError::NotMine => 0,
        HandlerError::AuthFailed => 1,
        HandlerError::NoClientTimestamp => 2,
    }
}

/// The envelope that tells the originator of `m` that handling it failed:
/// type error, the parties of `m`, the id of this node, the reason code as
/// payload.
pub open spec fn spec_error_ack(m: MsgView, my_id: u32, e: HandlerError) -> MsgView {
    MsgView {
        version: VERSION,
        typ: Type::Error.spec_value(),
        sender: m.sender,
        receiver: m.receiver,
        timestamp: m.timestamp,
        seqnum: m.seqnum,
        node_id: my_id,
        extension: Seq::empty(),
        payload: seq![spec_reason(e)],
    }
}

/// What becomes of the result of a dispatch: a decline is swallowed, a
/// failed authentication closes the stream, any other failure is told to
/// the originator.
pub open spec fn spec_settle(
    m: MsgView,
    my_id: u32,
    result: Result<OutcomeView, HandlerError>,
) -> ServedView {
    match result {
        Ok(o) => ServedView::Done(o),
        Err(HandlerError::NotMine) => ServedView::Ignored,
        Err(HandlerError::AuthFailed) => ServedView::Closed(HandlerError::AuthFailed),
        Err(e) => ServedView::Rejected(spec_error_ack(m, my_id, e)),
    }
}

/// The world of a stream that has taken note of the timestamp of the
/// message it is about to handle.
pub open spec fn spec_noted(m: MsgView, w: World) -> World {
    World {
        states: InnerStates { client_timestamp: Some(m.timestamp), ..w.states },
        ..w
    }
}

/// What a node makes of a message from a peer node: the stream takes note
/// of the timestamp that the message came with, then dispatch, then settle.
pub open spec fn spec_serve_peer(hs: Seq<Handler>, m: MsgView, w: World, f: Facts) -> Service {
    let step = spec_dispatch(hs, m, spec_noted(m, w), f);
    Service { served: spec_settle(m, w.my_id, step.result), world: step.world }
}

/// What a node makes of a message from a client: the first message of a
/// stream must ask for admission, or the stream is closed; after that,
/// dispatch, then settle.
pub open spec fn spec_serve_client(hs: Seq<Handler>, m: MsgView, w: World, f: Facts) -> Service {
    if w.states.user is None && m.typ != Type::Auth.spec_value() {
        Service { served: ServedView::Closed(HandlerError::AuthFailed), world: w }
    } else {
        spec_serve_peer(hs, m, w, f)
    }
}

/// The session map after the stream with states `st` has let go of its
/// session: the entry of its user is gone, unless another stream has taken
/// the user over.
pub open spec fn spec_release(sessions: Map<u64, u64>, st: InnerStates) -> Map<u64, u64> {
    match st.user {
        Some(u) => if sessions.contains_key(u) && sessions[u] == st.handle {
            sessions.remove(u)
        } else {
            sessions
        },
        None => sessions,
    }
}

/// The world after a stream has ended: its session is gone from the session
/// map, and the stream remembers nothing.
pub open spec fn spec_close(w: World) -> World {
    World {
        sessions: spec_release(w.sessions, w.states),
        states: InnerStates { client_timestamp: None, user: None, handle: w.states.handle },
        ..w
    }
}

/// One queue that a broadcast writes to.
#[derive(Clone, Copy, Debug, PartialEq, Eq, Structural)]
pub struct Target {
    /// The id under which the queue is registered.
    pub id: u64,
    /// The handle of the queue.
    pub handle: u64,
}

/// Whether `targets` are the queues of a broadcast over `m` that leaves
/// out `except`: every registered id but `except` once, each with its
/// handle, and nothing else.
pub open spec fn is_broadcast(targets: Seq<Target>, m: Map<u64, u64>, except: Option<u64>) -> bool {
    &&& forall|i: int|
        0 <= i < targets.len() ==> m.contains_key(#[trigger] targets[i].id) && m[targets[i].id]
            == targets[i].handle && except != Some(targets[i].id)
    &&& forall|i: int, j: int|
        0 <= i < j < targets.len() ==> #[trigger] targets[i].id != #[trigger] targets[j].id
    &&& forall|id: u64|
        m.contains_key(id) && except != Some(id) ==> exists|i: int|
            0 <= i < targets.len() && #[trigger] targets[i].id == id
}

/// The handlers of a message node, in their order.
pub fn message_node_handlers() -> (hs: Vec<Handler>)
    ensures
        hs@ == seq![Handler::Auth, Handler::Echo, Handler::Text, Handler::Business],
{
    let mut hs: Vec<Handler> = Vec::new();
    hs.push(Handler::Auth);
    hs.push(Handler::Echo);
    hs.push(Handler::Text);
    hs.push(Handler::Business);
    assert(hs@ =~= seq![Handler::Auth, Handler::Echo, Handler::Text, Handler::Business]);
    hs
}

/// The handlers of a scheduler, in their order.
pub fn scheduler_handlers() -> (hs: Vec<Handler>)
    ensures
        hs@ == seq![Handler::NodeRegister, Handler::NodeUnregister],
{
    let mut hs: Vec<Handler> = Vec::new();
    hs.push(Handler::NodeRegister);
    hs.push(Handler::NodeUnregister);
    assert(hs@ =~= seq![Handler::NodeRegister, Handler::NodeUnregister]);
    hs
}

/// The short code that stands for a failure in an envelope of type error.
pub fn reason(e: HandlerError) -> (code: u8)
    ensures
        code == spec_reason(e),
{
    match e {
        HandlerError::NotMine => 0,
        HandlerError::AuthFailed => 1,
        HandlerError::NoClientTimestamp => 2,
    }
}

/// The envelope that tells the originator of `msg` that handling it failed.
pub fn error_ack(msg: &Msg, my_id: u32, e: HandlerError) -> (ack: Msg)
    ensures
        ack@ == spec_error_ack(msg@, my_id, e),
{
    let mut payload: Vec<u8> = Vec::new();
    payload.push(reason(e));
    assert(payload@ =~= seq![spec_reason(e)]);
    Msg {
        version: VERSION,
        typ: Type::Error.value(),
        sender: msg.sender,
        receiver: msg.receiver,
        timestamp: msg.timestamp,
        seqnum: msg.seqnum,
        node_id: my_id,
        extension: Vec::new(),
        payload,
    }
}

/// Serves a message that a peer node sent.
pub fn serve_peer(
    handlers: &Vec<Handler>,
    msg: &Msg,
    ctx: &mut Context,
    states: &mut InnerStates,
    facts: Facts,
) -> (served: Served)
    ensures
        served@ == spec_serve_peer(handlers@, msg@, old(ctx).world(*old(states)), facts).served,
        final(ctx).world(*final(states)) == spec_serve_peer(
            handlers@,
            msg@,
            old(ctx).world(*old(states)),
            facts,
        ).world,
{
    let my_id = ctx.my_id;
    states.client_timestamp = Some(msg.timestamp);
    match dispatch(handlers, msg, ctx, states, facts) {
        Ok(o) => Served::Done(o),
        Err(HandlerError::NotMine) => Served::Ignored,
        Err(HandlerError::AuthFailed) => Served::Closed(HandlerError::AuthFailed),
        Err(e) => Served::Rejected(error_ack(msg, my_id, e)),
    }
}

/// Serves a message that a client sent.
pub fn serve_client(
    handlers: &Vec<Handler>,
    msg: &Msg,
    ctx: &mut Context,
    states: &mut InnerStates,
    facts: Facts,
) -> (served: Served)
    ensures
        served@ == spec_serve_client(handlers@, msg@, old(ctx).world(*old(states)), facts).served,
        final(ctx).world(*final(states)) == spec_serve_client(
            handlers@,
            msg@,
            old(ctx).world(*old(states)),
            facts,
        ).world,
{
    if states.user.is_none() && msg.typ != Type::Auth.value() {
        return Served::Closed(HandlerError::AuthFailed);
    }
    serve_peer(handlers, msg, ctx, states, facts)
}

/// Ends a stream: takes its session out of the session map and clears what
/// the stream remembered.
pub fn close(ctx: &mut Context, states: &mut InnerStates)
    ensures
        final(ctx).world(*final(states)) == spec_close(old(ctx).world(*old(states))),
{
    match states.user {
        Some(u) => {
            ctx.sessions.remove_if_held(u, states.handle);
        },
        None => {},
    }
    states.user = None;
    states.client_timestamp = None;
}

/// The queues that a broadcast over `registry` writes to.
pub fn broadcast_targets(registry: &Registry, except: Option<u64>) -> (targets: Vec<Target>)
    ensures
        is_broadcast(targets@, registry@, except),
{
    let ids = registry.ids();
    let mut targets: Vec<Target> = Vec::new();
    let ghost mut from: Seq<int> = Seq::empty();
    let mut k: usize = 0;
    while k < ids.len()
        invariant
            k <= ids.len(),
            ids@.no_duplicates(),
            ids@.to_set() == registry@.dom(),
            from.len() == targets.len(),
            forall|i: int|
                0 <= i < targets.len() ==> 0 <= #[trigger] from[i] < k && ids[from[i]]
                    == targets[i].id,
            forall|i: int, j: int|
                0 <= i < j < targets.len() ==> #[trigger] from[i] < #[trigger] from[j],
            forall|i: int|
                0 <= i < targets.len() ==> registry@.contains_key(#[trigger] targets[i].id)
                    && registry@[targets[i].id] == targets[i].handle && except != Some(
                    targets[i].id,
                ),
            forall|j: int|
                0 <= j < k && except != Some(#[trigger] ids[j]) ==> exists|i: int|
                    0 <= i < targets.len() && #[trigger] targets[i].id == ids[j],
        decreases ids.len() - k,
    {
        let id = ids[k];
        assert(ids@.to_set().contains(id));
        let skip = match except {
            Some(x) => x == id,
            None => false,
        };
        if !skip {
            match registry.get(id) {
                Some(handle) => {
                    let ghost before = targets@;
                    targets.push(Target { id, handle });
                    proof {
                        from = from.push(k as int);
                        assert forall|j: int|
                            0 <= j < k + 1 && except != Some(#[trigger] ids[j]) implies exists|
                            i: int,
                        |
                            0 <= i < targets.len() && #[trigger] targets[i].id == ids[j] by {
                            if j < k {
                                let i = choose|i: int|
                                    0 <= i < before.len() && #[trigger] before[i].id == ids[j];
                                assert(targets[i].id == ids[j]);
                            } else {
                                assert(targets[targets.len() - 1].id == ids[j]);
                            }
                        }
                    }
                },
                None => {},
            }
        }
        k = k + 1;
    }
    proof {
        assert forall|i: int, j: int| 0 <= i < j < targets.len() implies #[trigger] targets[i].id
            != #[trigger] targets[j].id by {
            assert(from[i] < from[j]);
        }
        assert forall|id: u64| registry@.contains_key(id) && except != Some(id) implies exists|
            i: int,
        | 0 <= i < targets.len() && #[trigger] targets[i].id == id by {
            assert(ids@.to_set().contains(id));
            let j = choose|j: int| 0 <= j < ids@.len() && ids@[j] == id;
            assert(except != Some(ids[j]));
        }
    }
    targets
}

/// Serving a message leaves the id of the node, the cluster map and the
/// queue of the stream as they were.
pub proof fn lemma_serve_frame(hs: Seq<Handler>, m: MsgView, w: World, f: Facts)
    ensures
        spec_serve_client(hs, m, w, f).world.my_id == w.my_id,
        spec_serve_client(hs, m, w, f).world.cluster == w.cluster,
        spec_serve_client(hs, m, w, f).world.states.handle == w.states.handle,
        spec_serve_peer(hs, m, w, f).world.my_id == w.my_id,
        spec_serve_peer(hs, m, w, f).world.cluster == w.cluster,
        spec_serve_peer(hs, m, w, f).world.states.handle == w.states.handle,
{
    lemma_dispatch_frame(hs, 0, m, spec_noted(m, w), f);
}

proof fn lemma_dispatch_frame(hs: Seq<Handler>, from: int, m: MsgView, w: World, f: Facts)
    ensures
        spec_dispatch_from(hs, from, m, w, f).world.my_id == w.my_id,
        spec_dispatch_from(hs, from, m, w, f).world.cluster == w.cluster,
        spec_dispatch_from(hs, from, m, w, f).world.states.handle == w.states.handle,
    decreases hs.len() - from,
{
    if 0 <= from < hs.len() && !spec_accepts(hs[from], m.typ) {
        lemma_dispatch_frame(hs, from + 1, m, w, f);
    }
}

/// Every message that a text or business handler takes is acknowledged
/// with the timestamp that it came with, between its own parties, by this
/// node.
pub proof fn lemma_served_ack(hs: Seq<Handler>, k: int, m: MsgView, w: World, f: Facts)
    requires
        0 <= k < hs.len(),
        hs[k] == Handler::Text || hs[k] == Handler::Business,
        spec_accepts(hs[k], m.typ),
        forall|j: int| 0 <= j < k ==> !spec_accepts(#[trigger] hs[j], m.typ),
    ensures
        spec_serve_peer(hs, m, w, f).served is Done,
        spec_serve_peer(hs, m, w, f).served->Done_0.reply == spec_ack(m, w.my_id, m.timestamp),
        spec_serve_peer(hs, m, w, f).world == spec_noted(m, w),
{
    lemma_first_match(hs, k, m, spec_noted(m, w), f);
}

/// Whatever a node writes back carries the id of the node: the reply of
/// every handler, unless it is the noop that is not written, and every
/// envelope of type error.
pub proof fn lemma_reply_from_this_node(hs: Seq<Handler>, m: MsgView, w: World, f: Facts)
    ensures
        spec_serve_peer(hs, m, w, f).served matches ServedView::Done(o) ==> o.reply.typ
            == Type::Noop.spec_value() || o.reply.node_id == w.my_id,
        spec_serve_peer(hs, m, w, f).served matches ServedView::Rejected(ack) ==> ack.node_id
            == w.my_id,
        spec_serve_client(hs, m, w, f).served matches ServedView::Done(o) ==> o.reply.typ
            == Type::Noop.spec_value() || o.reply.node_id == w.my_id,
        spec_serve_client(hs, m, w, f).served matches ServedView::Rejected(ack) ==> ack.node_id
            == w.my_id,
{
    lemma_dispatch_reply(hs, 0, m, spec_noted(m, w), f);
}

proof fn lemma_dispatch_reply(hs: Seq<Handler>, from: int, m: MsgView, w: World, f: Facts)
    ensures
        spec_dispatch_from(hs, from, m, w, f).result matches Ok(o) ==> o.reply.typ
            == Type::Noop.spec_value() || o.reply.node_id == w.my_id,
    decreases hs.len() - from,
{
    if 0 <= from < hs.len() && !spec_accepts(hs[from], m.typ) {
        lemma_dispatch_reply(hs, from + 1, m, w, f);
    }
}

} // verus!
