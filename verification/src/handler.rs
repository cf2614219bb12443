//! The handler pipeline of a connection: an ordered list of handlers, tried
//! in order until one takes the message.
//!
//! A handler decides; it does not write. What it decides comes back as an
//! `Outcome`: the reply for the originating stream, and the actions that the
//! owner of the queues carries out with the relayed message.

use vstd::prelude::*;
use crate::msg::{spec_ack, spec_noop, Msg, MsgView, Type};
use crate::registry::Registry;
use crate::shared::lookup;

verus! {

/// Why a handler hands back no outcome.
#[derive(Clone, Copy, Debug, PartialEq, Eq, Structural)]
pub enum HandlerError {
    /// The handler declines the message: the next one is tried.
    NotMine,
    /// The token was refused, or the stream is authenticated already. The
    /// stream is closed.
    AuthFailed,
    /// The stream has recorded no client timestamp to acknowledge with.
    NoClientTimestamp,
}

/// What the owner of the queues does with the relayed message.
#[derive(Clone, Copy, Debug, PartialEq, Eq, Structural)]
pub enum Action {
    /// Write it to the queue of the local session with this handle.
    Deliver(u64),
    /// Hand it to the I/O task as a point-to-point message.
    Persist,
    /// Hand it to the group fan-out task.
    Fanout,
    /// Write it to the queue of the peer node with this handle.
    Forward(u64),
    /// The receiver has no session on this node: nothing is written.
    Missed(u64),
    /// The node of the receiver is not in the cluster map: the message is
    /// dropped.
    PeerOffline(u32),
    /// Write it to every queue of the cluster map, but for the one
    /// registered under the given id.
    Broadcast(Option<u64>),
}

/// What the collaborators outside the node have found out about a message
/// before it is dispatched.
#[derive(Clone, Copy, Debug, PartialEq, Eq, Structural)]
pub struct Facts {
    /// The token store accepts the token of an auth message.
    pub token_valid: bool,
    /// The receiver is a group.
    pub receiver_is_group: bool,
}

/// What one stream remembers between its messages.
#[derive(Clone, Copy, Debug, PartialEq, Eq, Structural)]
pub struct InnerStates {
    /// The timestamp that the message in hand came with: the time of the
    /// client, to acknowledge with.
    pub client_timestamp: Option<u64>,
    /// The user that was admitted on this stream.
    pub user: Option<u64>,
    /// The handle of the outbound queue of this stream.
    pub handle: u64,
}

/// The handlers.
#[derive(Clone, Copy, Debug, PartialEq, Eq, Structural)]
pub enum Handler {
    /// Admits a user: type 1.
    Auth,
    /// Answers a health check: type 6.
    Echo,
    /// Routes user text: types 32 to 63.
    Text,
    /// Routes business messages: types 64 to 95.
    Business,
    /// Tells every node of a new node: type 96.
    NodeRegister,
    /// Tells every other node that a node has left: type 97.
    NodeUnregister,
}

/// What a handler decides.
#[derive(Debug, PartialEq, Eq)]
pub struct Outcome {
    /// The message that the actions carry, where there are actions.
    pub relay: Option<Msg>,
    /// What to do with the relayed message, in order.
    pub actions: Vec<Action>,
    /// What to write back on the originating stream. A reply of type noop
    /// is not written.
    pub reply: Msg,
}

/// An outcome as a mathematical value.
pub ghost struct OutcomeView {
    pub relay: Option<MsgView>,
    pub actions: Seq<Action>,
    pub reply: MsgView,
}

impl View for Outcome {
    type V = OutcomeView;

    open spec fn view(&self) -> OutcomeView {
        OutcomeView {
            relay: match self.relay {
                Some(m) => Some(m@),
                None => None,
            },
            actions: self.actions@,
            reply: self.reply@,
        }
    }
}

/// The state that handlers share on one node.
pub struct Context {
    /// The id of this node.
    pub my_id: u32,
    /// The session map: user id to queue handle.
    pub sessions: Registry,
    /// The cluster map: node id to queue handle.
    pub cluster: Registry,
}

/// What a handler sees and may change, as a mathematical value.
pub ghost struct World {
    pub my_id: u32,
    pub sessions: Map<u64, u64>,
    pub cluster: Map<u64, u64>,
    pub states: InnerStates,
}

/// What a handler makes of a message: its result, and the world after it.
pub ghost struct Step {
    pub result: Result<OutcomeView, HandlerError>,
    pub world: World,
}

impl Context {
    /// A node without sessions and without peers.
    pub fn new(my_id: u32) -> (ctx: Context)
        ensures
            ctx.my_id == my_id,
            ctx.sessions@ == Map::<u64, u64>::empty(),
            ctx.cluster@ == Map::<u64, u64>::empty(),
    {
        Context { my_id, sessions: Registry::new(), cluster: Registry::new() }
    }

    /// The world of a stream on this node.
    pub open spec fn world(&self, states: InnerStates) -> World {
        World { my_id: self.my_id, sessions: self.sessions@, cluster: self.cluster@, states }
    }
}

impl InnerStates {
    /// The states of a stream that has just been opened.
    pub fn new(handle: u64) -> (s: InnerStates)
        ensures
            s == (InnerStates { client_timestamp: None, user: None, handle }),
    {
        InnerStates { client_timestamp: None, user: None, handle }
    }
}

/// The result of a handler, the outcome taken as a mathematical value.
pub open spec fn result_view(r: Result<Outcome, HandlerError>) -> Result<OutcomeView, HandlerError> {
    match r {
        Ok(o) => Ok(o@),
        Err(e) => Err(e),
    }
}

/// Whether a handler takes messages of this type.
pub open spec fn spec_accepts(h: Handler, typ: u16) -> bool {
    match h {
        Handler::Auth => typ == 1,
        Handler::Echo => typ == 6,
        Handler::Text => 32 <= typ < 64,
        Handler::Business => 64 <= typ < 96,
        Handler::NodeRegister => typ == 96,
        Handler::NodeUnregister => typ == 97,
    }
}

/// Where a user message goes. A message for a group goes to the fan-out
/// task. A message for this node goes to the session of its receiver, if
/// there is one, and to the I/O task. A message for another node goes to
/// that node, if the cluster map knows it, and is dropped if not.
pub open spec fn spec_route(
    m: MsgView,
    my_id: u32,
    sessions: Map<u64, u64>,
    cluster: Map<u64, u64>,
    receiver_is_group: bool,
) -> Seq<Action> {
    if receiver_is_group {
        seq![Action::Fanout]
    } else if m.node_id == my_id {
        match lookup(sessions, m.receiver) {
            Some(h) => seq![Action::Deliver(h), Action::Persist],
            None => seq![Action::Missed(m.receiver), Action::Persist],
        }
    } else {
        match lookup(cluster, m.node_id as u64) {
            Some(h) => seq![Action::Forward(h)],
            None => seq![Action::PeerOffline(m.node_id)],
        }
    }
}

/// The answer to a health check: the message itself, sender and receiver
/// swapped, from this node.
pub open spec fn spec_echo(m: MsgView, my_id: u32) -> MsgView {
    MsgView { sender: m.receiver, receiver: m.sender, node_id: my_id, ..m }
}

/// The extension that marks the notice of a new node.
pub open spec fn spec_register_mark() -> Seq<u8> {
    seq![116u8, 114u8, 117u8, 101u8]
}

/// The notice of a new node that goes to every node: the payload of the
/// registration, under the sender of the registration.
pub open spec fn spec_notice(m: MsgView) -> MsgView {
    MsgView {
        typ: Type::MessageNodeRegister.spec_value(),
        sender: m.sender,
        extension: spec_register_mark(),
        payload: m.payload,
        ..spec_noop()
    }
}

/// What a handler makes of a message that it takes.
pub open spec fn spec_take(h: Handler, m: MsgView, w: World, f: Facts) -> Step {
    match h {
        Handler::Auth => {
            if w.states.user is Some || !f.token_valid {
                Step { result: Err(HandlerError::AuthFailed), world: w }
            } else {
                Step {
                    result: Ok(
                        OutcomeView {
                            relay: None,
                            actions: Seq::empty(),
                            reply: spec_ack(m, w.my_id, m.timestamp),
                        },
                    ),
                    world: World {
                        sessions: w.sessions.insert(m.sender, w.states.handle),
                        states: InnerStates {
                            client_timestamp: Some(m.timestamp),
                            user: Some(m.sender),
                            handle: w.states.handle,
                        },
                        ..w
                    },
                }
            }
        },
        Handler::Echo => Step {
            result: Ok(
                OutcomeView {
                    relay: None,
                    actions: Seq::empty(),
                    reply: spec_echo(m, w.my_id),
                },
            ),
            world: w,
        },
        Handler::Text => match w.states.client_timestamp {
            None => Step { result: Err(HandlerError::NoClientTimestamp), world: w },
            Some(t) => Step {
                result: Ok(
                    OutcomeView {
                        relay: Some(m),
                        actions: spec_route(
                            m,
                            w.my_id,
                            w.sessions,
                            w.cluster,
                            f.receiver_is_group,
                        ),
                        reply: spec_ack(m, w.my_id, t),
                    },
                ),
                world: w,
            },
        },
        Handler::Business => match w.states.client_timestamp {
            None => Step { result: Err(HandlerError::NoClientTimestamp), world: w },
            Some(t) => if m.typ == Type::RemoteInvoke.spec_value() {
                Step {
                    result: Ok(
                        OutcomeView {
                            relay: None,
                            actions: Seq::empty(),
                            reply: spec_ack(m, w.my_id, t),
                        },
                    ),
                    world: w,
                }
            } else {
                Step {
                    result: Ok(
                        OutcomeView {
                            relay: Some(m),
                            actions: spec_route(
                            m,
                            w.my_id,
                            w.sessions,
                            w.cluster,
                            f.receiver_is_group,
                        ),
                            reply: spec_ack(m, w.my_id, t),
                        },
                    ),
                    world: w,
                }
            },
        },
        Handler::NodeRegister => Step {
            result: Ok(
                OutcomeView {
                    relay: Some(spec_notice(m)),
                    actions: seq![Action::Broadcast(None)],
                    reply: spec_ack(m, w.my_id, m.timestamp),
                },
            ),
            world: w,
        },
        Handler::NodeUnregister => Step {
            result: Ok(
                OutcomeView {
                    relay: Some(m),
                    actions: seq![Action::Broadcast(Some(m.sender))],
                    reply: spec_noop(),
                },
            ),
            world: w,
        },
    }
}

/// What a handler makes of a message: it declines what is not of its type,
/// and changes nothing then.
pub open spec fn spec_run(h: Handler, m: MsgView, w: World, f: Facts) -> Step {
    if spec_accepts(h, m.typ) {
        spec_take(h, m, w, f)
    } else {
        Step { result: Err(HandlerError::NotMine), world: w }
    }
}

/// What the handlers from position `from` on make of a message: the first
/// that does not decline decides.
pub open spec fn spec_dispatch_from(
    hs: Seq<Handler>,
    from: int,
    m: MsgView,
    w: World,
    f: Facts,
) -> Step
    decreases hs.len() - from,
{
    if from < 0 || from >= hs.len() {
        Step { result: Err(HandlerError::NotMine), world: w }
    } else if spec_accepts(hs[from], m.typ) {
        spec_take(hs[from], m, w, f)
    } else {
        spec_dispatch_from(hs, from + 1, m, w, f)
    }
}

/// What a pipeline makes of a message.
pub open spec fn spec_dispatch(hs: Seq<Handler>, m: MsgView, w: World, f: Facts) -> Step {
    spec_dispatch_from(hs, 0, m, w, f)
}

/// Handler order: where the handler at position `k` takes the type of a
/// message and none before it does, the pipeline does what that handler
/// does, and nothing else: no other handler has any effect.
pub proof fn lemma_first_match(hs: Seq<Handler>, k: int, m: MsgView, w: World, f: Facts)
    requires
        0 <= k < hs.len(),
        spec_accepts(hs[k], m.typ),
        forall|j: int| 0 <= j < k ==> !spec_accepts(#[trigger] hs[j], m.typ),
    ensures
        spec_dispatch(hs, m, w, f) == spec_take(hs[k], m, w, f),
{
    lemma_first_match_from(hs, 0, k, m, w, f);
}

proof fn lemma_first_match_from(hs: Seq<Handler>, from: int, k: int, m: MsgView, w: World, f: Facts)
    requires
        0 <= from <= k < hs.len(),
        spec_accepts(hs[k], m.typ),
        forall|j: int| from <= j < k ==> !spec_accepts(#[trigger] hs[j], m.typ),
    ensures
        spec_dispatch_from(hs, from, m, w, f) == spec_take(hs[k], m, w, f),
    decreases k - from,
{
    if from < k {
        lemma_first_match_from(hs, from + 1, k, m, w, f);
    }
}

/// Where no handler takes the type of a message, the pipeline declines it
/// and changes nothing.
pub proof fn lemma_no_match(hs: Seq<Handler>, m: MsgView, w: World, f: Facts)
    requires
        forall|j: int| 0 <= j < hs.len() ==> !spec_accepts(#[trigger] hs[j], m.typ),
    ensures
        spec_dispatch(hs, m, w, f) == (Step { result: Err(HandlerError::NotMine), world: w }),
{
    lemma_no_match_from(hs, 0, m, w, f);
}

proof fn lemma_no_match_from(hs: Seq<Handler>, from: int, m: MsgView, w: World, f: Facts)
    requires
        0 <= from <= hs.len(),
        forall|j: int| from <= j < hs.len() ==> !spec_accepts(#[trigger] hs[j], m.typ),
    ensures
        spec_dispatch_from(hs, from, m, w, f) == (Step {
            result: Err(HandlerError::NotMine),
            world: w,
        }),
    decreases hs.len() - from,
{
    if from < hs.len() {
        lemma_no_match_from(hs, from + 1, m, w, f);
    }
}

/// Every acknowledgement of a text or business message carries the client
/// timestamp of its stream, the parties of the message, and the id of this
/// node.
pub proof fn lemma_ack_carries_client_timestamp(
    h: Handler,
    m: MsgView,
    w: World,
    f: Facts,
    t: u64,
)
    requires
        h == Handler::Text || h == Handler::Business,
        spec_accepts(h, m.typ),
        w.states.client_timestamp == Some(t),
    ensures
        spec_run(h, m, w, f).result is Ok,
        spec_run(h, m, w, f).result->Ok_0.reply.typ == Type::Ack.spec_value(),
        spec_run(h, m, w, f).result->Ok_0.reply.timestamp == t,
        spec_run(h, m, w, f).result->Ok_0.reply.sender == m.sender,
        spec_run(h, m, w, f).result->Ok_0.reply.receiver == m.receiver,
        spec_run(h, m, w, f).result->Ok_0.reply.node_id == w.my_id,
{
}

/// Cross-node forward: a text message for a user of node `b`, handed to
/// node `a` whose cluster map knows `b`, is written to the queue of `b` and
/// to nothing else, and is acknowledged by `a` under its own id; the same
/// message, arriving at `b`, is written to the queue of its receiver.
pub proof fn lemma_cross_node_forward(m: MsgView, a: World, b: World, f: Facts, t: u64)
    requires
        32 <= m.typ < 64,
        !f.receiver_is_group,
        a.my_id != b.my_id,
        m.node_id == b.my_id,
        a.cluster.contains_key(b.my_id as u64),
        b.sessions.contains_key(m.receiver),
        a.states.client_timestamp == Some(t),
        b.states.client_timestamp is Some,
    ensures
        spec_run(Handler::Text, m, a, f).result is Ok,
        spec_run(Handler::Text, m, a, f).result->Ok_0.relay == Some(m),
        spec_run(Handler::Text, m, a, f).result->Ok_0.actions == seq![
            Action::Forward(a.cluster[b.my_id as u64]),
        ],
        spec_run(Handler::Text, m, a, f).result->Ok_0.reply == spec_ack(m, a.my_id, t),
        spec_run(Handler::Text, m, a, f).world == a,
        spec_run(Handler::Text, m, b, f).result is Ok,
        spec_run(Handler::Text, m, b, f).result->Ok_0.relay == Some(m),
        spec_run(Handler::Text, m, b, f).result->Ok_0.actions == seq![
            Action::Deliver(b.sessions[m.receiver]),
            Action::Persist,
        ],
{
}

/// Whether a handler takes messages of this type.
pub fn accepts(h: Handler, typ: u16) -> (b: bool)
    ensures
        b == spec_accepts(h, typ),
{
    match h {
        Handler::Auth => typ == 1,
        Handler::Echo => typ == 6,
        Handler::Text => 32 <= typ && typ < 64,
        Handler::Business => 64 <= typ && typ < 96,
        Handler::NodeRegister => typ == 96,
        Handler::NodeUnregister => typ == 97,
    }
}

/// Where a user message goes.
pub fn route(msg: &Msg, ctx: &Context, receiver_is_group: bool) -> (actions: Vec<Action>)
    ensures
        actions@ == spec_route(msg@, ctx.my_id, ctx.sessions@, ctx.cluster@, receiver_is_group),
{
    let mut actions: Vec<Action> = Vec::new();
    if receiver_is_group {
        actions.push(Action::Fanout);
        assert(actions@ =~= seq![Action::Fanout]);
    } else if msg.node_id == ctx.my_id {
        match ctx.sessions.get(msg.receiver) {
            Some(h) => {
                actions.push(Action::Deliver(h));
                actions.push(Action::Persist);
                assert(actions@ =~= seq![Action::Deliver(h), Action::Persist]);
            },
            None => {
                actions.push(Action::Missed(msg.receiver));
                actions.push(Action::Persist);
                assert(actions@ =~= seq![Action::Missed(msg.receiver), Action::Persist]);
            },
        }
    } else {
        match ctx.cluster.get(msg.node_id as u64) {
            Some(h) => {
                actions.push(Action::Forward(h));
                assert(actions@ =~= seq![Action::Forward(h)]);
            },
            None => {
                actions.push(Action::PeerOffline(msg.node_id));
                assert(actions@ =~= seq![Action::PeerOffline(msg.node_id)]);
            },
        }
    }
    actions
}

/// The answer to a health check.
pub fn echo(msg: &Msg, my_id: u32) -> (reply: Msg)
    ensures
        reply@ == spec_echo(msg@, my_id),
{
    let mut reply = msg.duplicate();
    reply.sender = msg.receiver;
    reply.receiver = msg.sender;
    reply.node_id = my_id;
    reply
}

/// The notice of a new node that goes to every node.
pub fn notice(msg: &Msg) -> (n: Msg)
    ensures
        n@ == spec_notice(msg@),
{
    let mut mark: Vec<u8> = Vec::new();
    mark.push(116u8);
    mark.push(114u8);
    mark.push(117u8);
    mark.push(101u8);
    assert(mark@ =~= spec_register_mark());
    let mut n = Msg::from_payload_extension(msg.payload.as_slice(), mark.as_slice());
    n.typ = Type::MessageNodeRegister.value();
    n.sender = msg.sender;
    n
}

/// Lets one handler look at a message. It declines what is not of its
/// type; what it takes, it decides as `spec_take` says.
pub fn run(h: Handler, msg: &Msg, ctx: &mut Context, states: &mut InnerStates, facts: Facts) -> (r:
    Result<Outcome, HandlerError>)
    ensures
        result_view(r) == spec_run(h, msg@, old(ctx).world(*old(states)), facts).result,
        final(ctx).world(*final(states)) == spec_run(
            h,
            msg@,
            old(ctx).world(*old(states)),
            facts,
        ).world,
{
    if !accepts(h, msg.typ) {
        return Err(HandlerError::NotMine);
    }
    match h {
        Handler::Auth => {
            if states.user.is_some() || !facts.token_valid {
                return Err(HandlerError::AuthFailed);
            }
            ctx.sessions.insert(msg.sender, states.handle);
            states.user = Some(msg.sender);
            states.client_timestamp = Some(msg.timestamp);
            Ok(
                Outcome {
                    relay: None,
                    actions: Vec::new(),
                    reply: msg.generate_ack(ctx.my_id, msg.timestamp),
                },
            )
        },
        Handler::Echo => Ok(
            Outcome { relay: None, actions: Vec::new(), reply: echo(msg, ctx.my_id) },
        ),
        Handler::Text => match states.client_timestamp {
            None => Err(HandlerError::NoClientTimestamp),
            Some(t) => {
                let actions = route(msg, ctx, facts.receiver_is_group);
                Ok(
                    Outcome {
                        relay: Some(msg.duplicate()),
                        actions,
                        reply: msg.generate_ack(ctx.my_id, t),
                    },
                )
            },
        },
        Handler::Business => match states.client_timestamp {
            None => Err(HandlerError::NoClientTimestamp),
            Some(t) => {
                if msg.typ == Type::RemoteInvoke.value() {
                    Ok(
                        Outcome {
                            relay: None,
                            actions: Vec::new(),
                            reply: msg.generate_ack(ctx.my_id, t),
                        },
                    )
                } else {
                    let actions = route(msg, ctx, facts.receiver_is_group);
                    Ok(
                        Outcome {
                            relay: Some(msg.duplicate()),
                            actions,
                            reply: msg.generate_ack(ctx.my_id, t),
                        },
                    )
                }
            },
        },
        Handler::NodeRegister => {
            let mut actions: Vec<Action> = Vec::new();
            actions.push(Action::Broadcast(None));
            assert(actions@ =~= seq![Action::Broadcast(None)]);
            Ok(
                Outcome {
                    relay: Some(notice(msg)),
                    actions,
                    reply: msg.generate_ack(ctx.my_id, msg.timestamp),
                },
            )
        },
        Handler::NodeUnregister => {
            let mut actions: Vec<Action> = Vec::new();
            actions.push(Action::Broadcast(Some(msg.sender)));
            assert(actions@ =~= seq![Action::Broadcast(Some(msg.sender))]);
            Ok(Outcome { relay: Some(msg.duplicate()), actions, reply: Msg::noop() })
        },
    }
}

/// Lets the handlers of a pipeline look at a message, in order, until one
/// does not decline.
pub fn dispatch(
    handlers: &Vec<Handler>,
    msg: &Msg,
    ctx: &mut Context,
    states: &mut InnerStates,
    facts: Facts,
) -> (r: Result<Outcome, HandlerError>)
    ensures
        result_view(r) == spec_dispatch(
            handlers@,
            msg@,
            old(ctx).world(*old(states)),
            facts,
        ).result,
        final(ctx).world(*final(states)) == spec_dispatch(
            handlers@,
            msg@,
            old(ctx).world(*old(states)),
            facts,
        ).world,
{
    let ghost w = ctx.world(*states);
    let mut i: usize = 0;
    while i < handlers.len()
        invariant
            i <= handlers.len(),
            w == old(ctx).world(*old(states)),
            ctx.world(*states) == w,
            spec_dispatch(handlers@, msg@, w, facts) == spec_dispatch_from(
                handlers@,
                i as int,
                msg@,
                w,
                facts,
            ),
        decreases handlers.len() - i,
    {
        let h = handlers[i];
        if accepts(h, msg.typ) {
            return run(h, msg, ctx, states, facts);
        }
        i = i + 1;
    }
    Err(HandlerError::NotMine)
}

} // verus!
