//! The server side of the transport: which peers have a connection, which
//! streams they have opened, and when a connection has been silent for too
//! long.
//!
//! A peer has at most one live connection. A connection that has seen no
//! frame for the idle timeout is closed, and what its streams had put into
//! the session map is taken out, before anything else is accepted.

use vstd::prelude::*;
use vstd::slice::slice_subrange;
use crate::config::PeerAddr;
use crate::handler::{Context, Facts, Handler, InnerStates};
use crate::msg::{
    assemble, decode_head, spec_assemble, spec_decode_head, Head, Msg, HEAD_LEN,
};
use crate::session::{
    lemma_serve_frame, message_node_handlers, serve_client, spec_release, spec_serve_client,
    Served, Service,
};
use crate::shared::lookup;

verus! {

/// Why the server does not do what was asked.
#[derive(Clone, Copy, Debug, PartialEq, Eq, Structural)]
pub enum ServerError {
    /// The peer has a live connection already.
    DuplicatePeer,
    /// As many connections are live as the server accepts.
    TooManyConnections,
    /// The peer has no live connection.
    UnknownPeer,
    /// No open stream has this queue.
    UnknownStream,
    /// An open stream has this queue already.
    DuplicateStream,
}

/// A live connection.
#[derive(Clone, Copy, Debug, PartialEq, Eq, Structural)]
pub struct Conn {
    pub peer: PeerAddr,
    /// When the last frame arrived, in milliseconds.
    pub last_frame_ms: u64,
}

/// An open stream: the connection it belongs to, and what it remembers.
#[derive(Clone, Copy, Debug, PartialEq, Eq, Structural)]
pub struct Stream {
    pub peer: PeerAddr,
    pub states: InnerStates,
}

/// Whether a connection has been silent for the idle timeout.
pub open spec fn spec_idle(c: Conn, now: u64, timeout: u64) -> bool {
    now - c.last_frame_ms >= timeout
}

/// Whether `peer` has a connection among `conns`.
pub open spec fn has_peer(conns: Seq<Conn>, peer: PeerAddr) -> bool {
    exists|i: int| 0 <= i < conns.len() && (#[trigger] conns[i]).peer == peer
}

/// Whether the connection of `peer` has been silent for the idle timeout.
pub open spec fn doomed(conns: Seq<Conn>, peer: PeerAddr, now: u64, timeout: u64) -> bool {
    exists|i: int|
        0 <= i < conns.len() && (#[trigger] conns[i]).peer == peer && spec_idle(
            conns[i],
            now,
            timeout,
        )
}

/// No two connections have one peer.
pub open spec fn unique_peers(conns: Seq<Conn>) -> bool {
    forall|i: int, j: int|
        0 <= i < j < conns.len() ==> (#[trigger] conns[i]).peer != (#[trigger] conns[j]).peer
}

/// No two streams have one queue.
pub open spec fn unique_handles(streams: Seq<Stream>) -> bool {
    forall|i: int, j: int|
        0 <= i < j < streams.len() ==> (#[trigger] streams[i]).states.handle != (
        #[trigger] streams[j]).states.handle
}

/// The connections that stay: those that are not idle, in their order.
pub open spec fn spec_live(conns: Seq<Conn>, now: u64, timeout: u64) -> Seq<Conn>
    decreases conns.len(),
{
    if conns.len() == 0 {
        conns
    } else if spec_idle(conns.last(), now, timeout) {
        spec_live(conns.drop_last(), now, timeout)
    } else {
        spec_live(conns.drop_last(), now, timeout).push(conns.last())
    }
}

/// The streams that stay: those whose connection is not idle, in their
/// order.
pub open spec fn spec_live_streams(
    streams: Seq<Stream>,
    conns: Seq<Conn>,
    now: u64,
    timeout: u64,
) -> Seq<Stream>
    decreases streams.len(),
{
    if streams.len() == 0 {
        streams
    } else if doomed(conns, streams.last().peer, now, timeout) {
        spec_live_streams(streams.drop_last(), conns, now, timeout)
    } else {
        spec_live_streams(streams.drop_last(), conns, now, timeout).push(streams.last())
    }
}

/// The session map after every stream of an idle connection has let go of
/// its session.
pub open spec fn spec_reaped(
    sessions: Map<u64, u64>,
    streams: Seq<Stream>,
    conns: Seq<Conn>,
    now: u64,
    timeout: u64,
) -> Map<u64, u64>
    decreases streams.len(),
{
    if streams.len() == 0 {
        sessions
    } else {
        let before = spec_reaped(sessions, streams.drop_last(), conns, now, timeout);
        if doomed(conns, streams.last().peer, now, timeout) {
            spec_release(before, streams.last().states)
        } else {
            before
        }
    }
}

/// Every connection that stays was there and is not idle, and every
/// connection that was there and is not idle stays.
pub proof fn lemma_live_members(conns: Seq<Conn>, now: u64, timeout: u64, c: Conn)
    ensures
        spec_live(conns, now, timeout).contains(c) <==> conns.contains(c) && !spec_idle(
            c,
            now,
            timeout,
        ),
    decreases conns.len(),
{
    if conns.len() > 0 {
        let rest = conns.drop_last();
        lemma_live_members(rest, now, timeout, c);
        let kept = spec_live(rest, now, timeout);
        if conns.contains(c) {
            let i = choose|i: int| 0 <= i < conns.len() && conns[i] == c;
            if i < conns.len() - 1 {
                assert(rest[i] == c);
            }
        }
        if rest.contains(c) {
            let i = choose|i: int| 0 <= i < rest.len() && rest[i] == c;
            assert(conns[i] == c);
        }
        if !spec_idle(conns.last(), now, timeout) {
            let out = kept.push(conns.last());
            if out.contains(c) {
                let i = choose|i: int| 0 <= i < out.len() && out[i] == c;
                if i < kept.len() {
                    assert(kept[i] == c);
                }
            }
            if kept.contains(c) {
                let i = choose|i: int| 0 <= i < kept.len() && kept[i] == c;
                assert(out[i] == c);
            }
            if c == conns.last() {
                assert(out[out.len() - 1] == c);
                assert(conns[conns.len() - 1] == c);
            }
        }
    }
}

/// Reaping keeps peers apart, and leaves at most as many connections as
/// there were.
pub proof fn lemma_live_unique(conns: Seq<Conn>, now: u64, timeout: u64)
    requires
        unique_peers(conns),
    ensures
        unique_peers(spec_live(conns, now, timeout)),
        spec_live(conns, now, timeout).len() <= conns.len(),
    decreases conns.len(),
{
    if conns.len() > 0 {
        let rest = conns.drop_last();
        lemma_live_unique(rest, now, timeout);
        let kept = spec_live(rest, now, timeout);
        if !spec_idle(conns.last(), now, timeout) {
            let out = kept.push(conns.last());
            assert forall|i: int, j: int| 0 <= i < j < out.len() implies (#[trigger] out[i]).peer
                != (#[trigger] out[j]).peer by {
                if j == out.len() - 1 {
                    lemma_live_members(rest, now, timeout, kept[i]);
                    assert(kept.contains(kept[i]));
                    let k = choose|k: int| 0 <= k < rest.len() && rest[k] == kept[i];
                    assert(conns[k].peer != conns[conns.len() - 1].peer);
                }
            }
        }
    }
}

/// Reaping leaves no connection that is idle.
pub proof fn lemma_live_not_idle(conns: Seq<Conn>, now: u64, timeout: u64, i: int)
    requires
        0 <= i < spec_live(conns, now, timeout).len(),
    ensures
        !spec_idle(spec_live(conns, now, timeout)[i], now, timeout),
{
    let kept = spec_live(conns, now, timeout);
    assert(kept.contains(kept[i]));
    lemma_live_members(conns, now, timeout, kept[i]);
}

/// Reaping lets go of sessions and registers none: what the session map
/// holds afterwards, it held before.
pub proof fn lemma_reaped_shrinks(
    sessions: Map<u64, u64>,
    streams: Seq<Stream>,
    conns: Seq<Conn>,
    now: u64,
    timeout: u64,
    user: u64,
)
    ensures
        lookup(spec_reaped(sessions, streams, conns, now, timeout), user) is Some ==> lookup(
            spec_reaped(sessions, streams, conns, now, timeout),
            user,
        ) == lookup(sessions, user),
    decreases streams.len(),
{
    if streams.len() > 0 {
        lemma_reaped_shrinks(sessions, streams.drop_last(), conns, now, timeout, user);
    }
}

/// Idle timeout: once the idle connections are reaped, the session map
/// holds no entry that a stream of an idle connection had put there.
pub proof fn lemma_reaped_sessions_gone(
    sessions: Map<u64, u64>,
    streams: Seq<Stream>,
    conns: Seq<Conn>,
    now: u64,
    timeout: u64,
    i: int,
)
    requires
        0 <= i < streams.len(),
        doomed(conns, streams[i].peer, now, timeout),
        streams[i].states.user is Some,
    ensures
        lookup(
            spec_reaped(sessions, streams, conns, now, timeout),
            streams[i].states.user->Some_0,
        ) != Some(streams[i].states.handle),
    decreases streams.len(),
{
    let user = streams[i].states.user->Some_0;
    let rest = streams.drop_last();
    let before = spec_reaped(sessions, rest, conns, now, timeout);
    if i < streams.len() - 1 {
        assert(rest[i] == streams[i]);
        lemma_reaped_sessions_gone(sessions, rest, conns, now, timeout, i);
    }
}

/// Reaping touches no session of a connection that stays: an entry that no
/// stream of an idle connection holds is as it was.
pub proof fn lemma_reaped_keeps_others(
    sessions: Map<u64, u64>,
    streams: Seq<Stream>,
    conns: Seq<Conn>,
    now: u64,
    timeout: u64,
    user: u64,
)
    requires
        forall|i: int|
            0 <= i < streams.len() && doomed(conns, (#[trigger] streams[i]).peer, now, timeout)
                ==> !(streams[i].states.user == Some(user) && lookup(sessions, user) == Some(
                streams[i].states.handle,
            )),
    ensures
        lookup(spec_reaped(sessions, streams, conns, now, timeout), user) == lookup(
            sessions,
            user,
        ),
    decreases streams.len(),
{
    if streams.len() > 0 {
        let rest = streams.drop_last();
        assert forall|i: int|
            0 <= i < rest.len() && doomed(
                conns,
                (#[trigger] rest[i]).peer,
                now,
                timeout,
            ) implies !(rest[i].states.user == Some(user) && lookup(sessions, user) == Some(
            rest[i].states.handle,
        )) by {
            assert(rest[i] == streams[i]);
        }
        lemma_reaped_keeps_others(sessions, rest, conns, now, timeout, user);
        assert(streams[streams.len() - 1] == streams.last());
    }
}

/// What serving a message on stream `i` leaves of the streams: a stream
/// that is closed is gone, any other remembers what the handlers told it.
pub open spec fn spec_streams_after(streams: Seq<Stream>, i: int, svc: Service) -> Seq<Stream> {
    if svc.served is Closed {
        streams.remove(i)
    } else {
        streams.update(i, Stream { peer: streams[i].peer, states: svc.world.states })
    }
}

/// What serving a message leaves of the session map: a stream that is
/// closed lets go of its session.
pub open spec fn spec_sessions_after(svc: Service) -> Map<u64, u64> {
    if svc.served is Closed {
        spec_release(svc.world.sessions, svc.world.states)
    } else {
        svc.world.sessions
    }
}

/// A server: its connections and their streams.
pub struct Server {
    address: String,
    max_connections: usize,
    idle_timeout_ms: u64,
    handlers: Vec<Handler>,
    conns: Vec<Conn>,
    streams: Vec<Stream>,
}

impl Server {
    /// The address that the server listens on.
    pub closed spec fn address(&self) -> String {
        self.address
    }

    /// The live connections, oldest first.
    pub closed spec fn conns(&self) -> Seq<Conn> {
        self.conns@
    }

    /// The open streams, oldest first.
    pub closed spec fn streams(&self) -> Seq<Stream> {
        self.streams@
    }

    /// Number of connections that the server accepts.
    pub closed spec fn max_connections(&self) -> usize {
        self.max_connections
    }

    /// After how many milliseconds without a frame a connection is closed.
    pub closed spec fn idle_timeout_ms(&self) -> u64 {
        self.idle_timeout_ms
    }

    /// The pipeline of each stream.
    pub closed spec fn handlers(&self) -> Seq<Handler> {
        self.handlers@
    }

    /// A peer has one connection, a queue one stream, a stream a
    /// connection, and the connections are no more than the server accepts.
    pub open spec fn wf(&self) -> bool {
        &&& unique_peers(self.conns())
        &&& unique_handles(self.streams())
        &&& self.conns().len() <= self.max_connections()
        &&& forall|i: int|
            0 <= i < self.streams().len() ==> has_peer(
                self.conns(),
                (#[trigger] self.streams()[i]).peer,
            )
        &&& self.handlers() == seq![
            Handler::Auth,
            Handler::Echo,
            Handler::Text,
            Handler::Business,
        ]
    }

    /// A server of a message node, without connections.
    pub fn new(address: String, max_connections: usize, idle_timeout_ms: u64) -> (s: Server)
        ensures
            s.wf(),
            s.address() == address,
            s.max_connections() == max_connections,
            s.idle_timeout_ms() == idle_timeout_ms,
            s.conns() == Seq::<Conn>::empty(),
            s.streams() == Seq::<Stream>::empty(),
    {
        Server {
            address,
            max_connections,
            idle_timeout_ms,
            handlers: message_node_handlers(),
            conns: Vec::new(),
            streams: Vec::new(),
        }
    }

    /// Number of live connections.
    pub fn connections(&self) -> (n: usize)
        ensures
            n == self.conns().len(),
    {
        self.conns.len()
    }

    /// Number of open streams.
    pub fn open_streams(&self) -> (n: usize)
        ensures
            n == self.streams().len(),
    {
        self.streams.len()
    }

    /// The connection of `peer`, if it has one.
    pub fn find_peer(&self, peer: PeerAddr) -> (found: Option<usize>)
        ensures
            match found {
                Some(i) => i < self.conns().len() && self.conns()[i as int].peer == peer,
                None => !has_peer(self.conns(), peer),
            },
    {
        let mut i: usize = 0;
        while i < self.conns.len()
            invariant
                i <= self.conns.len(),
                forall|j: int| 0 <= j < i ==> (#[trigger] self.conns@[j]).peer != peer,
            decreases self.conns.len() - i,
        {
            if self.conns[i].peer == peer {
                return Some(i);
            }
            i = i + 1;
        }
        None
    }

    /// The stream with the queue `handle`, if there is one.
    pub fn find_stream(&self, handle: u64) -> (found: Option<usize>)
        ensures
            match found {
                Some(i) => i < self.streams().len() && self.streams()[i as int].states.handle
                    == handle,
                None => forall|j: int|
                    0 <= j < self.streams().len() ==> (#[trigger] self.streams()[j]).states.handle
                        != handle,
            },
    {
        let mut i: usize = 0;
        while i < self.streams.len()
            invariant
                i <= self.streams.len(),
                forall|j: int| 0 <= j < i ==> (#[trigger] self.streams@[j]).states.handle != handle,
            decreases self.streams.len() - i,
        {
            if self.streams[i].states.handle == handle {
                return Some(i);
            }
            i = i + 1;
        }
        None
    }

    /// Whether the connection of `peer` has been silent for the idle
    /// timeout at `now`.
    pub fn is_doomed(&self, peer: PeerAddr, now: u64) -> (b: bool)
        requires
            unique_peers(self.conns()),
        ensures
            b == doomed(self.conns(), peer, now, self.idle_timeout_ms()),
    {
        match self.find_peer(peer) {
            Some(i) => {
                let c = self.conns[i];
                now >= c.last_frame_ms && now - c.last_frame_ms >= self.idle_timeout_ms
            },
            None => false,
        }
    }

    /// Closes every connection that has seen no frame for the idle timeout,
    /// with its streams, and takes their sessions out of the session map.
    /// Returns how many connections were closed.
    pub fn reap(&mut self, ctx: &mut Context, now: u64) -> (closed: usize)
        requires
            old(self).wf(),
        ensures
            final(self).wf(),
            final(self).address() == old(self).address(),
            final(self).max_connections() == old(self).max_connections(),
            final(self).idle_timeout_ms() == old(self).idle_timeout_ms(),
            final(self).conns() == spec_live(old(self).conns(), now, old(self).idle_timeout_ms()),
            final(self).streams() == spec_live_streams(
                old(self).streams(),
                old(self).conns(),
                now,
                old(self).idle_timeout_ms(),
            ),
            final(ctx).sessions@ == spec_reaped(
                old(ctx).sessions@,
                old(self).streams(),
                old(self).conns(),
                now,
                old(self).idle_timeout_ms(),
            ),
            final(ctx).cluster@ == old(ctx).cluster@,
            final(ctx).my_id == old(ctx).my_id,
            closed == old(self).conns().len() - final(self).conns().len(),
    {
        let timeout = self.idle_timeout_ms;
        let ghost conns0 = self.conns@;
        let ghost streams0 = self.streams@;
        let ghost sessions0 = ctx.sessions@;
        let mut kept_streams: Vec<Stream> = Vec::new();
        let mut i: usize = 0;
        assert(streams0.take(0) =~= Seq::<Stream>::empty());
        while i < self.streams.len()
            invariant
                i <= self.streams.len(),
                self.streams@ == streams0,
                self.conns@ == conns0,
                self.idle_timeout_ms == timeout,
                unique_peers(conns0),
                kept_streams@ == spec_live_streams(streams0.take(i as int), conns0, now, timeout),
                ctx.sessions@ == spec_reaped(
                    sessions0,
                    streams0.take(i as int),
                    conns0,
                    now,
                    timeout,
                ),
                ctx.cluster@ == old(ctx).cluster@,
                ctx.my_id == old(ctx).my_id,
            decreases self.streams.len() - i,
        {
            let s = self.streams[i];
            proof {
                let next = streams0.take(i + 1);
                assert(next.drop_last() =~= streams0.take(i as int));
                assert(next.last() == s);
            }
            if self.is_doomed(s.peer, now) {
                match s.states.user {
                    Some(u) => {
                        ctx.sessions.remove_if_held(u, s.states.handle);
                    },
                    None => {},
                }
            } else {
                kept_streams.push(s);
            }
            i = i + 1;
        }
        assert(streams0.take(streams0.len() as int) =~= streams0);
        let mut kept: Vec<Conn> = Vec::new();
        let mut j: usize = 0;
        assert(conns0.take(0) =~= Seq::<Conn>::empty());
        while j < self.conns.len()
            invariant
                j <= self.conns.len(),
                self.conns@ == conns0,
                self.idle_timeout_ms == timeout,
                kept@ == spec_live(conns0.take(j as int), now, timeout),
            decreases self.conns.len() - j,
        {
            let c = self.conns[j];
            proof {
                let next = conns0.take(j + 1);
                assert(next.drop_last() =~= conns0.take(j as int));
                assert(next.last() == c);
            }
            if !(now >= c.last_frame_ms && now - c.last_frame_ms >= timeout) {
                kept.push(c);
            }
            j = j + 1;
        }
        assert(conns0.take(conns0.len() as int) =~= conns0);
        proof {
            lemma_live_unique(conns0, now, timeout);
            lemma_live_streams_wf(streams0, conns0, now, timeout);
        }
        let closed: usize = self.conns.len() - kept.len();
        self.conns = kept;
        self.streams = kept_streams;
        closed
    }

    /// Accepts a connection from `peer`, after the idle connections have
    /// been reaped. A peer that has a live connection is refused, and so is
    /// any peer once the server is full.
    pub fn accept(&mut self, ctx: &mut Context, peer: PeerAddr, now: u64) -> (r: Result<
        (),
        ServerError,
    >)
        requires
            old(self).wf(),
        ensures
            final(self).wf(),
            final(self).address() == old(self).address(),
            final(self).max_connections() == old(self).max_connections(),
            final(self).idle_timeout_ms() == old(self).idle_timeout_ms(),
            final(self).streams() == spec_live_streams(
                old(self).streams(),
                old(self).conns(),
                now,
                old(self).idle_timeout_ms(),
            ),
            final(ctx).sessions@ == spec_reaped(
                old(ctx).sessions@,
                old(self).streams(),
                old(self).conns(),
                now,
                old(self).idle_timeout_ms(),
            ),
            final(ctx).cluster@ == old(ctx).cluster@,
            final(ctx).my_id == old(ctx).my_id,
            r == spec_accept(
                spec_live(old(self).conns(), now, old(self).idle_timeout_ms()),
                old(self).max_connections(),
                peer,
            ),
            r is Ok ==> final(self).conns() == spec_live(
                old(self).conns(),
                now,
                old(self).idle_timeout_ms(),
            ).push(Conn { peer, last_frame_ms: now }),
            r is Err ==> final(self).conns() == spec_live(
                old(self).conns(),
                now,
                old(self).idle_timeout_ms(),
            ),
    {
        self.reap(ctx, now);
        match self.find_peer(peer) {
            Some(_) => Err(ServerError::DuplicatePeer),
            None => {
                if self.conns.len() >= self.max_connections {
                    return Err(ServerError::TooManyConnections);
                }
                let ghost before = self.conns@;
                self.conns.push(Conn { peer, last_frame_ms: now });
                proof {
                    assert forall|i: int, j: int| 0 <= i < j < self.conns@.len() implies (
                    #[trigger] self.conns@[i]).peer != (#[trigger] self.conns@[j]).peer by {
                        if j < before.len() {
                            assert(before[i].peer != before[j].peer);
                        } else {
                            assert(before[i].peer != peer);
                        }
                    }
                    assert forall|i: int| 0 <= i < self.streams@.len() implies has_peer(
                        self.conns@,
                        (#[trigger] self.streams@[i]).peer,
                    ) by {
                        assert(has_peer(before, self.streams@[i].peer));
                        let k = choose|k: int|
                            0 <= k < before.len() && (#[trigger] before[k]).peer
                                == self.streams@[i].peer;
                        assert(self.conns@[k].peer == self.streams@[i].peer);
                    }
                }
                Ok(())
            },
        }
    }

    /// Records that a frame of `peer` arrived at `now`. Tells whether the
    /// peer has a connection.
    pub fn touch(&mut self, peer: PeerAddr, now: u64) -> (known: bool)
        requires
            old(self).wf(),
        ensures
            final(self).wf(),
            final(self).address() == old(self).address(),
            final(self).max_connections() == old(self).max_connections(),
            final(self).idle_timeout_ms() == old(self).idle_timeout_ms(),
            final(self).streams() == old(self).streams(),
            known == has_peer(old(self).conns(), peer),
            !known ==> final(self).conns() == old(self).conns(),
            forall|i: int|
                0 <= i < old(self).conns().len() && (#[trigger] old(self).conns()[i]).peer == peer
                    ==> final(self).conns() == old(self).conns().update(
                    i,
                    Conn { peer, last_frame_ms: now },
                ),
    {
        match self.find_peer(peer) {
            None => false,
            Some(i) => {
                let ghost before = self.conns@;
                self.conns.set(i, Conn { peer, last_frame_ms: now });
                proof {
                    assert forall|a: int, b: int| 0 <= a < b < self.conns@.len() implies (
                    #[trigger] self.conns@[a]).peer != (#[trigger] self.conns@[b]).peer by {
                        assert(before[a].peer != before[b].peer);
                    }
                    assert forall|k: int| 0 <= k < self.streams@.len() implies has_peer(
                        self.conns@,
                        (#[trigger] self.streams@[k]).peer,
                    ) by {
                        assert(has_peer(before, self.streams@[k].peer));
                        let c = choose|c: int|
                            0 <= c < before.len() && (#[trigger] before[c]).peer
                                == self.streams@[k].peer;
                        assert(self.conns@[c].peer == self.streams@[k].peer);
                    }
                    assert forall|k: int|
                        0 <= k < before.len() && (#[trigger] before[k]).peer
                            == peer implies self.conns@ == before.update(
                        k,
                        Conn { peer, last_frame_ms: now },
                    ) by {
                        if k < i {
                            assert(before[k].peer != before[i as int].peer);
                        } else if k > i {
                            assert(before[i as int].peer != before[k].peer);
                        }
                    }
                }
                true
            },
        }
    }

    /// Serves a message that arrived at `now` on the stream with the queue
    /// `handle`: the pipeline of a message node decides, the stream
    /// remembers what the handlers told it, and its connection has seen a
    /// frame. A stream that must be closed is closed: it lets go of its
    /// session and is gone.
    pub fn serve(&mut self, ctx: &mut Context, handle: u64, msg: &Msg, facts: Facts, now: u64) -> (r:
        Result<Served, ServerError>)
        requires
            old(self).wf(),
        ensures
            final(self).wf(),
            final(self).address() == old(self).address(),
            final(self).max_connections() == old(self).max_connections(),
            final(self).idle_timeout_ms() == old(self).idle_timeout_ms(),
            final(ctx).cluster@ == old(ctx).cluster@,
            final(ctx).my_id == old(ctx).my_id,
            (forall|i: int|
                0 <= i < old(self).streams().len() ==> (#[trigger] old(self).streams()[i]).states.handle != handle) ==> r is Err && r->Err_0
                == ServerError::UnknownStream && final(self).streams() == old(self).streams()
                && final(self).conns() == old(self).conns() && final(ctx).sessions@ == old(ctx).sessions@,
            forall|i: int|
                0 <= i < old(self).streams().len() && (#[trigger] old(self).streams()[i]).states.handle == handle ==> served_as(
                    r,
                    final(self).streams(),
                    final(ctx).sessions@,
                    old(self).streams(),
                    i,
                    spec_serve_client(
                        old(self).handlers(),
                        msg@,
                        old(ctx).world(old(self).streams()[i].states),
                        facts,
                    ),
                ),
            forall|i: int, k: int|
                0 <= i < old(self).streams().len() && (#[trigger] old(self).streams()[i]).states.handle == handle && 0 <= k < old(self).conns().len() && (
                #[trigger] old(self).conns()[k]).peer == old(self).streams()[i].peer ==> final(self).conns() == old(self).conns().update(
                    k,
                    Conn { peer: old(self).streams()[i].peer, last_frame_ms: now },
                ),
    {
        let i = match self.find_stream(handle) {
            Some(i) => i,
            None => return Err(ServerError::UnknownStream),
        };
        let ghost streams0 = self.streams@;
        let ghost conns0 = self.conns@;
        let s = self.streams[i];
        let mut states = s.states;
        let ghost w = ctx.world(states);
        let ghost svc = spec_serve_client(self.handlers@, msg@, w, facts);
        proof {
            lemma_serve_frame(self.handlers@, msg@, w, facts);
            assert forall|j: int|
                0 <= j < streams0.len() && (#[trigger] streams0[j]).states.handle
                    == handle implies j == i by {
                if j < i {
                    assert(streams0[j].states.handle != streams0[i as int].states.handle);
                } else if j > i {
                    assert(streams0[i as int].states.handle != streams0[j].states.handle);
                }
            }
        }
        let served = serve_client(&self.handlers, msg, ctx, &mut states, facts);
        self.touch(s.peer, now);
        let closed = match &served {
            Served::Closed(_) => true,
            _ => false,
        };
        if closed {
            match states.user {
                Some(u) => {
                    ctx.sessions.remove_if_held(u, states.handle);
                },
                None => {},
            }
            self.streams.remove(i);
            proof {
                assert forall|a: int, b: int| 0 <= a < b < self.streams@.len() implies (
                #[trigger] self.streams@[a]).states.handle != (
                #[trigger] self.streams@[b]).states.handle by {
                    let a0 = if a < i { a } else { a + 1 };
                    let b0 = if b < i { b } else { b + 1 };
                    assert(streams0[a0].states.handle != streams0[b0].states.handle);
                }
                assert forall|k: int| 0 <= k < self.streams@.len() implies has_peer(
                    self.conns@,
                    (#[trigger] self.streams@[k]).peer,
                ) by {
                    let k0 = if k < i { k } else { k + 1 };
                    assert(self.streams@[k] == streams0[k0]);
                    lemma_touch_keeps_peers(conns0, self.conns@, streams0[k0].peer);
                }
            }
        } else {
            self.streams.set(i, Stream { peer: s.peer, states });
            proof {
                assert forall|a: int, b: int| 0 <= a < b < self.streams@.len() implies (
                #[trigger] self.streams@[a]).states.handle != (
                #[trigger] self.streams@[b]).states.handle by {
                    assert(streams0[a].states.handle != streams0[b].states.handle);
                }
                assert forall|k: int| 0 <= k < self.streams@.len() implies has_peer(
                    self.conns@,
                    (#[trigger] self.streams@[k]).peer,
                ) by {
                    assert(self.streams@[k].peer == streams0[k].peer);
                    lemma_touch_keeps_peers(conns0, self.conns@, streams0[k].peer);
                }
            }
        }
        Ok(served)
    }

    /// Opens a stream with the queue `handle` on the connection of `peer`.
    pub fn open_stream(&mut self, peer: PeerAddr, handle: u64) -> (r: Result<(), ServerError>)
        requires
            old(self).wf(),
        ensures
            final(self).wf(),
            final(self).address() == old(self).address(),
            final(self).max_connections() == old(self).max_connections(),
            final(self).idle_timeout_ms() == old(self).idle_timeout_ms(),
            final(self).conns() == old(self).conns(),
            r == spec_open_stream(old(self).conns(), old(self).streams(), peer, handle),
            r is Ok ==> final(self).streams() == old(self).streams().push(
                Stream {
                    peer,
                    states: InnerStates { client_timestamp: None, user: None, handle },
                },
            ),
            r is Err ==> final(self).streams() == old(self).streams(),
    {
        match self.find_peer(peer) {
            None => Err(ServerError::UnknownPeer),
            Some(_) => match self.find_stream(handle) {
                Some(_) => Err(ServerError::DuplicateStream),
                None => {
                    let ghost before = self.streams@;
                    self.streams.push(Stream { peer, states: InnerStates::new(handle) });
                    proof {
                        assert forall|i: int, j: int|
                            0 <= i < j < self.streams@.len() implies (
                        #[trigger] self.streams@[i]).states.handle != (
                        #[trigger] self.streams@[j]).states.handle by {
                            if j < before.len() {
                                assert(before[i].states.handle != before[j].states.handle);
                            } else {
                                assert(before[i].states.handle != handle);
                            }
                        }
                        assert forall|i: int| 0 <= i < self.streams@.len() implies has_peer(
                            self.conns@,
                            (#[trigger] self.streams@[i]).peer,
                        ) by {
                            if i < before.len() {
                                assert(has_peer(self.conns@, before[i].peer));
                            }
                        }
                    }
                    Ok(())
                },
            },
        }
    }
}

/// What becomes of a connection request, the idle connections reaped: a
/// peer with a live connection is refused, then any peer where the server
/// is full.
pub open spec fn spec_accept(live: Seq<Conn>, max_connections: usize, peer: PeerAddr) -> Result<
    (),
    ServerError,
> {
    if has_peer(live, peer) {
        Err(ServerError::DuplicatePeer)
    } else if live.len() >= max_connections {
        Err(ServerError::TooManyConnections)
    } else {
        Ok(())
    }
}

/// What becomes of the request for a stream: the peer must have a
/// connection, and the queue no stream yet.
pub open spec fn spec_open_stream(
    conns: Seq<Conn>,
    streams: Seq<Stream>,
    peer: PeerAddr,
    handle: u64,
) -> Result<(), ServerError> {
    if !has_peer(conns, peer) {
        Err(ServerError::UnknownPeer)
    } else if exists|i: int| 0 <= i < streams.len() && (#[trigger] streams[i]).states.handle == handle {
        Err(ServerError::DuplicateStream)
    } else {
        Ok(())
    }
}

/// Reaping keeps queues apart, and every stream that stays has a connection
/// that stays.
pub proof fn lemma_live_streams_wf(streams: Seq<Stream>, conns: Seq<Conn>, now: u64, timeout: u64)
    requires
        unique_handles(streams),
        forall|i: int| 0 <= i < streams.len() ==> has_peer(conns, (#[trigger] streams[i]).peer),
    ensures
        unique_handles(spec_live_streams(streams, conns, now, timeout)),
        forall|i: int|
            0 <= i < spec_live_streams(streams, conns, now, timeout).len() ==> has_peer(
                spec_live(conns, now, timeout),
                (#[trigger] spec_live_streams(streams, conns, now, timeout)[i]).peer,
            ),
        forall|s: Stream| #[trigger]
            spec_live_streams(streams, conns, now, timeout).contains(s) ==> streams.contains(s),
    decreases streams.len(),
{
    if streams.len() > 0 {
        let rest = streams.drop_last();
        assert forall|i: int| 0 <= i < rest.len() implies has_peer(
            conns,
            (#[trigger] rest[i]).peer,
        ) by {
            assert(rest[i] == streams[i]);
        }
        lemma_live_streams_wf(rest, conns, now, timeout);
        let kept = spec_live_streams(rest, conns, now, timeout);
        let out = spec_live_streams(streams, conns, now, timeout);
        assert forall|s: Stream| out.contains(s) implies streams.contains(s) by {
            let i = choose|i: int| 0 <= i < out.len() && out[i] == s;
            if i < kept.len() {
                assert(kept[i] == s);
                assert(kept.contains(s));
                let k = choose|k: int| 0 <= k < rest.len() && rest[k] == s;
                assert(streams[k] == s);
            } else {
                assert(streams[streams.len() - 1] == s);
            }
        }
        if !doomed(conns, streams.last().peer, now, timeout) {
            let last = streams.last();
            assert forall|i: int, j: int| 0 <= i < j < out.len() implies (
            #[trigger] out[i]).states.handle != (#[trigger] out[j]).states.handle by {
                if j == out.len() - 1 {
                    assert(kept.contains(kept[i]));
                    let k = choose|k: int| 0 <= k < rest.len() && rest[k] == kept[i];
                    assert(streams[k].states.handle != streams[streams.len() - 1].states.handle);
                }
            }
            assert(has_peer(conns, streams[streams.len() - 1].peer));
            let k = choose|k: int| 0 <= k < conns.len() && (#[trigger] conns[k]).peer == last.peer;
            assert(!spec_idle(conns[k], now, timeout));
            assert(conns.contains(conns[k]));
            lemma_live_members(conns, now, timeout, conns[k]);
            let live = spec_live(conns, now, timeout);
            let l = choose|l: int| 0 <= l < live.len() && live[l] == conns[k];
            assert(live[l].peer == last.peer);
            assert forall|i: int| 0 <= i < out.len() implies has_peer(
                live,
                (#[trigger] out[i]).peer,
            ) by {
                if i < kept.len() {
                    assert(out[i] == kept[i]);
                }
            }
        }
    }
}

/// What a served message leaves behind, seen from stream `i`: the result,
/// the streams and the session map are as `svc` says.
pub open spec fn served_as(
    r: Result<Served, ServerError>,
    streams: Seq<Stream>,
    sessions: Map<u64, u64>,
    before: Seq<Stream>,
    i: int,
    svc: Service,
) -> bool {
    &&& r is Ok
    &&& r->Ok_0@ == svc.served
    &&& streams == spec_streams_after(before, i, svc)
    &&& sessions == spec_sessions_after(svc)
}

/// A frame changes when a connection was last heard of, not whose it is.
pub proof fn lemma_touch_keeps_peers(before: Seq<Conn>, after: Seq<Conn>, peer: PeerAddr)
    requires
        before.len() == after.len(),
        forall|i: int| 0 <= i < before.len() ==> (#[trigger] before[i]).peer == after[i].peer,
        has_peer(before, peer),
    ensures
        has_peer(after, peer),
{
    let k = choose|k: int| 0 <= k < before.len() && (#[trigger] before[k]).peer == peer;
    assert(after[k].peer == peer);
}

/// Why no message comes off a connection.
#[derive(Clone, Copy, Debug, PartialEq, Eq, Structural)]
pub enum ReadError {
    /// The peer closed the connection: nothing was read.
    ConnectionClosed,
    /// Fewer or more bytes than a head came, or they spell no head.
    HeadError,
    /// Fewer or more bytes came than the head announced.
    BodyError,
}

/// A head that was read, stamped with the time of its arrival, and the
/// timestamp that the client had put there.
#[derive(Clone, Copy, Debug, PartialEq, Eq, Structural)]
pub struct HeadRead {
    pub head: Head,
    pub client_timestamp: u64,
}

/// What `read_head` makes of a read of `readable_size` bytes into
/// `head_buf` at `now`.
pub open spec fn spec_read_head_at(readable_size: usize, head_buf: Seq<u8>, now: u64) -> Result<
    HeadRead,
    ReadError,
> {
    if readable_size == 0 {
        Err(ReadError::ConnectionClosed)
    } else if readable_size != HEAD_LEN {
        Err(ReadError::HeadError)
    } else {
        match spec_decode_head(head_buf) {
            Err(_) => Err(ReadError::HeadError),
            Ok(h) => Ok(
                HeadRead { head: Head { timestamp: now, ..h }, client_timestamp: h.timestamp },
            ),
        }
    }
}

/// Takes the head of a message from what one read brought: `readable_size`
/// bytes in `head_buf`. The head is stamped with the time of its arrival.
pub fn read_head(readable_size: usize, head_buf: &[u8], now: u64) -> (r: Result<
    HeadRead,
    ReadError,
>)
    ensures
        r == spec_read_head_at(readable_size, head_buf@, now),
{
    if readable_size == 0 {
        return Err(ReadError::ConnectionClosed);
    }
    if readable_size != HEAD_LEN {
        return Err(ReadError::HeadError);
    }
    match decode_head(head_buf) {
        Err(_) => Err(ReadError::HeadError),
        Ok(h) => {
            let mut head = h;
            head.timestamp = now;
            Ok(HeadRead { head, client_timestamp: h.timestamp })
        },
    }
}

/// Takes the body of a message from what one read brought: `body_length`
/// bytes at the start of `body_buf`. The read must have brought exactly
/// what the head announced.
pub fn read_body(head: &Head, body_length: usize, body_buf: &[u8]) -> (r: Result<Msg, ReadError>)
    ensures
        body_length != head.spec_body_len() || body_buf@.len() < body_length ==> r is Err
            && r->Err_0 == ReadError::BodyError,
        body_length == head.spec_body_len() && body_buf@.len() >= body_length ==> r is Ok
            && r->Ok_0@ == spec_assemble(*head, body_buf@.subrange(0, body_length as int)),
{
    if body_length != head.body_len() || body_buf.len() < body_length {
        return Err(ReadError::BodyError);
    }
    match assemble(head, slice_subrange(body_buf, 0, body_length)) {
        Ok(m) => Ok(m),
        Err(_) => Err(ReadError::BodyError),
    }
}

} // verus!
