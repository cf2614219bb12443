//! The transport client: the life of one peer connection, of its streams
//! and of its queues.
//!
//! The handshake, the streams and the queues themselves belong to whoever
//! runs the client. The types of this file decide what may be done when:
//! that a peer gets one connection and further requests get streams on it,
//! that streams are numbered in the order in which they are opened, and that
//! the ends of the queues are handed out once.

use vstd::prelude::*;
use vstd::utf8::encode_utf8;
use crate::config::{ClientConfig, PeerAddr};
use crate::msg::{spec_auth, Msg};

verus! {

/// Why the transport does not do what was asked.
#[derive(Clone, Copy, Debug, PartialEq, Eq, Structural)]
pub enum TransportError {
    /// The handshake failed: no route, TLS, or a certificate that does not
    /// match.
    Handshake,
    /// There is no live connection to open a stream on.
    NotConnected,
    /// The ends of the queues were handed out before.
    ChannelTaken,
    /// The peer closed the stream instead of admitting the user.
    AuthFailed,
    /// No stream number is left.
    StreamsExhausted,
    /// No stream of this number was opened.
    UnknownStream,
}

/// Where a client stands.
#[derive(Clone, Copy, Debug, PartialEq, Eq, Structural)]
pub enum Phase {
    /// Configured, not yet dialled.
    Idle,
    /// The handshake is under way.
    Connecting,
    /// The connection is live.
    Connected,
    /// The handshake failed, or the connection was closed.
    Down,
}

/// What `run` asks for.
#[derive(Debug, PartialEq, Eq)]
pub enum Connect {
    /// Dial the peer with this configuration.
    Dial(ClientConfig),
    /// A connection is live or under way: use it.
    Reuse,
    /// The connection is down and the configuration spent.
    Refused,
}

/// What closing a connection tells the peer.
#[derive(Clone, Copy, Debug, PartialEq, Eq, Structural)]
pub struct CloseNotice {
    pub code: u32,
}

/// A client of one peer.
pub struct Client {
    config: Option<ClientConfig>,
    phase: Phase,
    opened: u64,
    channel_taken: bool,
}

impl Client {
    /// Where the client stands.
    pub closed spec fn phase(&self) -> Phase {
        self.phase
    }

    /// Number of streams opened so far.
    pub closed spec fn opened(&self) -> u64 {
        self.opened
    }

    /// Whether the ends of the queues were handed out.
    pub closed spec fn channel_taken(&self) -> bool {
        self.channel_taken
    }

    /// The configuration, until the dial takes it.
    pub closed spec fn config(&self) -> Option<ClientConfig> {
        self.config
    }

    /// A client holds its configuration exactly until it dials.
    pub closed spec fn wf(&self) -> bool {
        (self.phase == Phase::Idle) == (self.config is Some)
    }

    /// A client that has not dialled yet.
    pub fn new(config: ClientConfig) -> (c: Client)
        ensures
            c.wf(),
            c.phase() == Phase::Idle,
            c.config() == Some(config),
            c.opened() == 0,
            !c.channel_taken(),
    {
        Client { config: Some(config), phase: Phase::Idle, opened: 0, channel_taken: false }
    }

    /// Where the client stands.
    pub fn current_phase(&self) -> (p: Phase)
        ensures
            p == self.phase(),
    {
        self.phase
    }

    /// Asks for the connection. The first call hands out the configuration
    /// to dial with; while that connection is under way or live, every
    /// further call is told to use it: one peer, one connection.
    pub fn run(&mut self) -> (c: Connect)
        requires
            old(self).wf(),
        ensures
            final(self).wf(),
            final(self).opened() == old(self).opened(),
            final(self).channel_taken() == old(self).channel_taken(),
            old(self).phase() == Phase::Idle ==> c == Connect::Dial(old(self).config()->Some_0)
                && final(self).phase() == Phase::Connecting,
            old(self).phase() == Phase::Connecting || old(self).phase() == Phase::Connected ==> c
                == Connect::Reuse && final(self).phase() == old(self).phase(),
            old(self).phase() == Phase::Down ==> c == Connect::Refused && final(self).phase()
                == Phase::Down,
    {
        match self.phase {
            Phase::Idle => {
                let taken = self.config.take();
                self.phase = Phase::Connecting;
                match taken {
                    Some(config) => Connect::Dial(config),
                    None => Connect::Refused,
                }
            },
            Phase::Connecting => Connect::Reuse,
            Phase::Connected => Connect::Reuse,
            Phase::Down => Connect::Refused,
        }
    }

    /// Records how the handshake ended.
    pub fn dialled(&mut self, ok: bool) -> (r: Result<(), TransportError>)
        requires
            old(self).wf(),
        ensures
            final(self).wf(),
            final(self).opened() == old(self).opened(),
            final(self).channel_taken() == old(self).channel_taken(),
            old(self).phase() != Phase::Connecting ==> r == Err::<(), TransportError>(
                TransportError::NotConnected,
            ) && final(self).phase() == old(self).phase() && final(self).config() == old(self).config(),
            old(self).phase() == Phase::Connecting && ok ==> r == Ok::<(), TransportError>(())
                && final(self).phase() == Phase::Connected,
            old(self).phase() == Phase::Connecting && !ok ==> r == Err::<(), TransportError>(
                TransportError::Handshake,
            ) && final(self).phase() == Phase::Down,
    {
        match self.phase {
            Phase::Connecting => {
                if ok {
                    self.phase = Phase::Connected;
                    Ok(())
                } else {
                    self.phase = Phase::Down;
                    Err(TransportError::Handshake)
                }
            },
            _ => Err(TransportError::NotConnected),
        }
    }

    /// Opens a stream on the live connection and returns its number. Streams
    /// are numbered from 0 in the order in which they are opened.
    pub fn new_net_streams(&mut self) -> (r: Result<u64, TransportError>)
        requires
            old(self).wf(),
        ensures
            final(self).wf(),
            final(self).phase() == old(self).phase(),
            final(self).channel_taken() == old(self).channel_taken(),
            old(self).phase() != Phase::Connected ==> r == Err::<u64, TransportError>(
                TransportError::NotConnected,
            ) && final(self).opened() == old(self).opened(),
            old(self).phase() == Phase::Connected && old(self).opened() == u64::MAX ==> r == Err::<
                u64,
                TransportError,
            >(TransportError::StreamsExhausted) && final(self).opened() == old(self).opened(),
            old(self).phase() == Phase::Connected && old(self).opened() < u64::MAX ==> r == Ok::<
                u64,
                TransportError,
            >(old(self).opened()) && final(self).opened() == old(self).opened() + 1,
    {
        match self.phase {
            Phase::Connected => {
                if self.opened == u64::MAX {
                    return Err(TransportError::StreamsExhausted);
                }
                let id: u64 = self.opened;
                self.opened = id + 1;
                Ok(id)
            },
            _ => Err(TransportError::NotConnected),
        }
    }

    /// Takes note that the owner is done with a stream. A stream ends when
    /// its pump is dropped, so nothing changes; the call only tells whether
    /// such a stream was ever opened.
    pub fn finished_streams(&mut self, stream_id: u64) -> (r: Result<(), TransportError>)
        requires
            old(self).wf(),
        ensures
            *final(self) == *old(self),
            r == (if stream_id < old(self).opened() {
                Ok::<(), TransportError>(())
            } else {
                Err::<(), TransportError>(TransportError::UnknownStream)
            }),
    {
        if stream_id < self.opened {
            Ok(())
        } else {
            Err(TransportError::UnknownStream)
        }
    }

    /// Opens a stream and hands out the ends of the queues, once.
    pub fn rw_streams_no_token(&mut self) -> (r: Result<u64, TransportError>)
        requires
            old(self).wf(),
        ensures
            final(self).wf(),
            final(self).phase() == old(self).phase(),
            r == spec_take_channel(old(self).phase(), old(self).opened(), old(self).channel_taken()),
            r is Ok ==> final(self).opened() == old(self).opened() + 1 && final(self).channel_taken(),
            r is Err ==> final(self).opened() == old(self).opened() && final(self).channel_taken()
                == old(self).channel_taken(),
    {
        if self.channel_taken {
            return match self.phase {
                Phase::Connected => {
                    if self.opened == u64::MAX {
                        Err(TransportError::StreamsExhausted)
                    } else {
                        Err(TransportError::ChannelTaken)
                    }
                },
                _ => Err(TransportError::NotConnected),
            };
        }
        match self.new_net_streams() {
            Ok(id) => {
                self.channel_taken = true;
                Ok(id)
            },
            Err(e) => Err(e),
        }
    }

    /// Opens a stream, hands out the ends of the queues, once, and makes the
    /// request for admission that goes out first on the stream.
    pub fn rw_streams(&mut self, user_id: u64, node_id: u32, token: String) -> (r: Result<
        (u64, Msg),
        TransportError,
    >)
        requires
            old(self).wf(),
        ensures
            final(self).wf(),
            final(self).phase() == old(self).phase(),
            match r {
                Ok(pair) => spec_take_channel(
                    old(self).phase(),
                    old(self).opened(),
                    old(self).channel_taken(),
                ) == Ok::<u64, TransportError>(pair.0) && pair.1@ == spec_auth(
                    user_id,
                    0,
                    node_id,
                    encode_utf8(token@),
                ) && final(self).opened() == old(self).opened() + 1 && final(self).channel_taken(),
                Err(e) => spec_take_channel(
                    old(self).phase(),
                    old(self).opened(),
                    old(self).channel_taken(),
                ) == Err::<u64, TransportError>(e) && final(self).opened() == old(self).opened()
                    && final(self).channel_taken() == old(self).channel_taken(),
            },
    {
        match self.rw_streams_no_token() {
            Ok(id) => Ok((id, Msg::auth(user_id, 0, node_id, token))),
            Err(e) => Err(e),
        }
    }

    /// Closes the connection: code 0. Nothing can be opened after that.
    pub fn close(&mut self) -> (notice: CloseNotice)
        requires
            old(self).wf(),
        ensures
            final(self).wf(),
            final(self).phase() == Phase::Down,
            final(self).opened() == old(self).opened(),
            final(self).channel_taken() == old(self).channel_taken(),
            notice.code == 0,
    {
        self.config = None;
        self.phase = Phase::Down;
        CloseNotice { code: 0 }
    }
}

/// What asking for a stream together with the ends of the queues comes to:
/// the number of the stream, if the connection is live, a number is left and
/// the ends are still there.
pub open spec fn spec_take_channel(phase: Phase, opened: u64, taken: bool) -> Result<
    u64,
    TransportError,
> {
    if phase != Phase::Connected {
        Err(TransportError::NotConnected)
    } else if opened == u64::MAX {
        Err(TransportError::StreamsExhausted)
    } else if taken {
        Err(TransportError::ChannelTaken)
    } else {
        Ok(opened)
    }
}

/// What the answer to a request for admission means: a peer that refuses
/// closes the stream, so that no answer comes.
pub fn admitted(answered: bool) -> (r: Result<(), TransportError>)
    ensures
        r == (if answered {
            Ok::<(), TransportError>(())
        } else {
            Err::<(), TransportError>(TransportError::AuthFailed)
        }),
{
    if answered {
        Ok(())
    } else {
        Err(TransportError::AuthFailed)
    }
}

/// A client whose messages may carry a deadline for their reply.
pub struct ClientTimeout {
    client: Client,
    timeout_ms: u64,
    expired_taken: bool,
}

impl ClientTimeout {
    /// The client underneath.
    pub closed spec fn inner(&self) -> Client {
        self.client
    }

    /// How long a reply may take, in milliseconds.
    pub closed spec fn timeout_ms(&self) -> u64 {
        self.timeout_ms
    }

    /// Whether the queue of expired messages was handed out.
    pub closed spec fn expired_taken(&self) -> bool {
        self.expired_taken
    }

    /// The queue of expired messages goes out together with the other two.
    pub closed spec fn wf(&self) -> bool {
        self.client.wf() && self.expired_taken == self.client.channel_taken()
    }

    /// A client that has not dialled yet.
    pub fn new(config: ClientConfig, timeout_ms: u64) -> (c: ClientTimeout)
        ensures
            c.wf(),
            c.timeout_ms() == timeout_ms,
            c.inner().phase() == Phase::Idle,
            c.inner().config() == Some(config),
            c.inner().opened() == 0,
            !c.expired_taken(),
    {
        ClientTimeout { client: Client::new(config), timeout_ms, expired_taken: false }
    }

    /// How long a reply may take, in milliseconds.
    pub fn timeout(&self) -> (t: u64)
        ensures
            t == self.timeout_ms(),
    {
        self.timeout_ms
    }

    /// Asks for the connection, as `Client::run` does.
    pub fn run(&mut self) -> (c: Connect)
        requires
            old(self).wf(),
        ensures
            final(self).wf(),
            final(self).timeout_ms() == old(self).timeout_ms(),
            final(self).expired_taken() == old(self).expired_taken(),
            final(self).inner().opened() == old(self).inner().opened(),
            old(self).inner().phase() == Phase::Idle ==> c == Connect::Dial(
                old(self).inner().config()->Some_0,
            ) && final(self).inner().phase() == Phase::Connecting,
            old(self).inner().phase() == Phase::Connecting || old(self).inner().phase()
                == Phase::Connected ==> c == Connect::Reuse && final(self).inner().phase() == old(self).inner().phase(),
            old(self).inner().phase() == Phase::Down ==> c == Connect::Refused && final(self).inner().phase() == Phase::Down,
    {
        self.client.run()
    }

    /// Records how the handshake ended, as `Client::dialled` does.
    pub fn dialled(&mut self, ok: bool) -> (r: Result<(), TransportError>)
        requires
            old(self).wf(),
        ensures
            final(self).wf(),
            final(self).timeout_ms() == old(self).timeout_ms(),
            final(self).expired_taken() == old(self).expired_taken(),
            final(self).inner().opened() == old(self).inner().opened(),
            old(self).inner().phase() != Phase::Connecting ==> r == Err::<(), TransportError>(
                TransportError::NotConnected,
            ) && final(self).inner().phase() == old(self).inner().phase(),
            old(self).inner().phase() == Phase::Connecting && ok ==> r == Ok::<
                (),
                TransportError,
            >(()) && final(self).inner().phase() == Phase::Connected,
            old(self).inner().phase() == Phase::Connecting && !ok ==> r == Err::<
                (),
                TransportError,
            >(TransportError::Handshake) && final(self).inner().phase() == Phase::Down,
    {
        self.client.dialled(ok)
    }

    /// Opens a stream, as `Client::new_net_streams` does.
    pub fn new_net_streams(&mut self) -> (r: Result<u64, TransportError>)
        requires
            old(self).wf(),
        ensures
            final(self).wf(),
            final(self).timeout_ms() == old(self).timeout_ms(),
            final(self).expired_taken() == old(self).expired_taken(),
            final(self).inner().phase() == old(self).inner().phase(),
            old(self).inner().phase() != Phase::Connected ==> r == Err::<u64, TransportError>(
                TransportError::NotConnected,
            ) && final(self).inner().opened() == old(self).inner().opened(),
            old(self).inner().phase() == Phase::Connected && old(self).inner().opened()
                == u64::MAX ==> r == Err::<u64, TransportError>(TransportError::StreamsExhausted)
                && final(self).inner().opened() == old(self).inner().opened(),
            old(self).inner().phase() == Phase::Connected && old(self).inner().opened()
                < u64::MAX ==> r == Ok::<u64, TransportError>(old(self).inner().opened())
                && final(self).inner().opened() == old(self).inner().opened() + 1,
    {
        self.client.new_net_streams()
    }

    /// Takes note that the owner is done with a stream, as
    /// `Client::finished_streams` does.
    pub fn finished_streams(&mut self, stream_id: u64) -> (r: Result<(), TransportError>)
        requires
            old(self).wf(),
        ensures
            *final(self) == *old(self),
            r == (if stream_id < old(self).inner().opened() {
                Ok::<(), TransportError>(())
            } else {
                Err::<(), TransportError>(TransportError::UnknownStream)
            }),
    {
        self.client.finished_streams(stream_id)
    }

    /// Opens a stream, hands out the ends of the three queues, once, and
    /// makes the request for admission.
    pub fn rw_streams(&mut self, user_id: u64, node_id: u32, token: String) -> (r: Result<
        (u64, Msg),
        TransportError,
    >)
        requires
            old(self).wf(),
        ensures
            final(self).wf(),
            final(self).timeout_ms() == old(self).timeout_ms(),
            final(self).inner().phase() == old(self).inner().phase(),
            match r {
                Ok(pair) => spec_take_channel(
                    old(self).inner().phase(),
                    old(self).inner().opened(),
                    old(self).expired_taken(),
                ) == Ok::<u64, TransportError>(pair.0) && pair.1@ == spec_auth(
                    user_id,
                    0,
                    node_id,
                    encode_utf8(token@),
                ) && final(self).inner().opened() == old(self).inner().opened() + 1 && final(self).expired_taken(),
                Err(e) => spec_take_channel(
                    old(self).inner().phase(),
                    old(self).inner().opened(),
                    old(self).expired_taken(),
                ) == Err::<u64, TransportError>(e) && final(self).inner().opened() == old(self).inner().opened() && final(self).expired_taken() == old(self).expired_taken(),
            },
    {
        match self.client.rw_streams(user_id, node_id, token) {
            Ok(pair) => {
                self.expired_taken = true;
                Ok(pair)
            },
            Err(e) => Err(e),
        }
    }
}

/// What a connection of a multi-connection client is asked to be.
#[derive(Debug, PartialEq, Eq)]
pub struct ClientSubConnectionConfig {
    pub remote_address: PeerAddr,
    pub domain: String,
    pub opened_bi_streams_number: usize,
    pub opened_uni_streams_number: usize,
}

/// One connection of a multi-connection client.
#[derive(Debug, PartialEq, Eq)]
pub struct ClientSubConnection {
    /// The number of the connection at its client.
    pub connection: u64,
    /// Whether the request made this connection, or found it.
    pub reused: bool,
    /// Number of bidirectional streams to open for this request.
    pub streams: usize,
    /// Whether the ends of the queues are still to be handed out.
    pub channel: bool,
}

impl ClientSubConnection {
    /// Hands out the ends of the queues of this connection, once.
    pub fn operation_channel(&mut self) -> (r: Result<u64, TransportError>)
        ensures
            old(self).channel ==> r == Ok::<u64, TransportError>(old(self).connection),
            !old(self).channel ==> r == Err::<u64, TransportError>(TransportError::ChannelTaken),
            *final(self) == (ClientSubConnection { channel: false, ..*old(self) }),
    {
        if self.channel {
            self.channel = false;
            Ok(self.connection)
        } else {
            Err(TransportError::ChannelTaken)
        }
    }
}

/// The position of the first `peer` in `peers` from `from` on, or the
/// length of `peers` where it is not there.
pub open spec fn spec_find(peers: Seq<PeerAddr>, peer: PeerAddr, from: int) -> int
    decreases peers.len() - from,
{
    if from < 0 || from >= peers.len() {
        peers.len() as int
    } else if peers[from] == peer {
        from
    } else {
        spec_find(peers, peer, from + 1)
    }
}

/// The peers with a live connection after a connection to `peer` was asked
/// for: a peer that is there stays where it is, a new one comes last.
pub open spec fn spec_connected(peers: Seq<PeerAddr>, peer: PeerAddr) -> Seq<PeerAddr> {
    if spec_find(peers, peer, 0) < peers.len() {
        peers
    } else {
        peers.push(peer)
    }
}

/// Where a peer is found, it stands; where it is not found, it is not
/// there.
pub proof fn lemma_find(peers: Seq<PeerAddr>, peer: PeerAddr, from: int)
    requires
        0 <= from <= peers.len(),
    ensures
        from <= spec_find(peers, peer, from) <= peers.len(),
        spec_find(peers, peer, from) < peers.len() ==> peers[spec_find(peers, peer, from)] == peer,
        forall|j: int| from <= j < spec_find(peers, peer, from) ==> peers[j] != peer,
    decreases peers.len() - from,
{
    if from < peers.len() && peers[from] != peer {
        lemma_find(peers, peer, from + 1);
    }
}

/// Single connection: whatever connections there are, a first request for
/// a peer leaves it with one connection; a second request for the same
/// peer finds that connection and makes none; and a request for another
/// peer in between or afterwards changes neither fact.
pub proof fn lemma_single_connection(peers: Seq<PeerAddr>, p: PeerAddr, q: PeerAddr)
    requires
        peers.no_duplicates(),
        p != q,
    ensures
        spec_connected(peers, p).no_duplicates(),
        spec_connected(peers, p).contains(p),
        spec_connected(spec_connected(peers, p), p) == spec_connected(peers, p),
        spec_find(spec_connected(spec_connected(peers, p), q), p, 0) == spec_find(
            spec_connected(peers, p),
            p,
            0,
        ),
        spec_connected(spec_connected(peers, p), q).contains(q),
        spec_connected(spec_connected(spec_connected(peers, p), q), p) == spec_connected(
            spec_connected(peers, p),
            q,
        ),
{
    let one = spec_connected(peers, p);
    lemma_find(peers, p, 0);
    lemma_find(one, p, 0);
    lemma_connected(peers, p);
    lemma_connected(one, q);
    lemma_connected(one, p);
    let two = spec_connected(one, q);
    lemma_find(two, p, 0);
    lemma_connected(two, p);
    let i = spec_find(one, p, 0);
    assert(two[i] == p);
    if spec_find(two, p, 0) < i {
        assert(one[spec_find(two, p, 0)] == p);
    }
}

/// Asking for a connection keeps peers apart, leaves the peer connected,
/// and changes nothing where the peer was connected.
pub proof fn lemma_connected(peers: Seq<PeerAddr>, p: PeerAddr)
    requires
        peers.no_duplicates(),
    ensures
        spec_connected(peers, p).no_duplicates(),
        spec_connected(peers, p).contains(p),
        spec_find(spec_connected(peers, p), p, 0) < spec_connected(peers, p).len(),
        spec_find(spec_connected(peers, p), p, 0) == spec_find(peers, p, 0),
        peers.contains(p) <==> spec_find(peers, p, 0) < peers.len(),
{
    lemma_find(peers, p, 0);
    let i = spec_find(peers, p, 0);
    let after = spec_connected(peers, p);
    lemma_find(after, p, 0);
    if i < peers.len() {
        assert(peers[i] == p);
    } else {
        assert(!peers.contains(p)) by {
            if peers.contains(p) {
                let j = choose|j: int| 0 <= j < peers.len() && peers[j] == p;
                assert(peers[j] != p);
            }
        }
        assert(after[i] == p);
        assert forall|a: int, b: int| 0 <= a < after.len() && 0 <= b < after.len() && a
            != b implies after[a] != after[b] by {
            if a < i && b < i {
                assert(peers[a] != peers[b]);
            }
        }
        if spec_find(after, p, 0) < i {
            assert(peers[spec_find(after, p, 0)] == p);
        }
    }
}

/// A client that reaches many peers from one local endpoint.
pub struct ClientMultiConnection {
    peers: Vec<PeerAddr>,
    max_sender_side_channel_size: usize,
    max_receiver_side_channel_size: usize,
}

impl ClientMultiConnection {
    /// The peers with a live connection: the number of a connection is the
    /// position of its peer.
    pub closed spec fn peers(&self) -> Seq<PeerAddr> {
        self.peers@
    }

    /// Depth of the send queue of each connection.
    pub closed spec fn send_depth(&self) -> usize {
        self.max_sender_side_channel_size
    }

    /// Depth of the receive queue of each connection.
    pub closed spec fn recv_depth(&self) -> usize {
        self.max_receiver_side_channel_size
    }

    /// No peer has two connections.
    pub open spec fn wf(&self) -> bool {
        self.peers().no_duplicates()
    }

    /// A client without connections, with the queue depths of `config`.
    pub fn new(config: ClientConfig) -> (c: ClientMultiConnection)
        ensures
            c.wf(),
            c.peers() == Seq::<PeerAddr>::empty(),
            c.send_depth() == config.max_sender_side_channel_size,
            c.recv_depth() == config.max_receiver_side_channel_size,
    {
        ClientMultiConnection {
            peers: Vec::new(),
            max_sender_side_channel_size: config.max_sender_side_channel_size,
            max_receiver_side_channel_size: config.max_receiver_side_channel_size,
        }
    }

    /// The connection to `peer`, if there is one.
    pub fn find(&self, peer: PeerAddr) -> (found: Option<usize>)
        ensures
            match found {
                Some(i) => i == spec_find(self.peers(), peer, 0) && i < self.peers().len()
                    && self.peers()[i as int] == peer,
                None => spec_find(self.peers(), peer, 0) == self.peers().len()
                    && !self.peers().contains(peer),
            },
    {
        let mut i: usize = 0;
        while i < self.peers.len()
            invariant
                i <= self.peers.len(),
                forall|j: int| 0 <= j < i ==> self.peers@[j] != peer,
                spec_find(self.peers@, peer, 0) == spec_find(self.peers@, peer, i as int),
            decreases self.peers.len() - i,
        {
            if self.peers[i] == peer {
                return Some(i);
            }
            i = i + 1;
        }
        None
    }

    /// Number of live connections.
    pub fn connections(&self) -> (n: usize)
        ensures
            n == self.peers().len(),
    {
        self.peers.len()
    }

    /// Asks for a connection to a peer. A peer that has a connection keeps
    /// it, and the request gets its streams there; any other peer gets a
    /// connection of its own.
    pub fn new_connection(&mut self, config: &ClientSubConnectionConfig) -> (c: ClientSubConnection)
        requires
            old(self).wf(),
        ensures
            final(self).wf(),
            final(self).send_depth() == old(self).send_depth(),
            final(self).recv_depth() == old(self).recv_depth(),
            c.streams == config.opened_bi_streams_number,
            c.channel,
            final(self).peers() == spec_connected(old(self).peers(), config.remote_address),
            c.connection == spec_find(old(self).peers(), config.remote_address, 0),
            c.reused == (spec_find(old(self).peers(), config.remote_address, 0) < old(self).peers().len()),
            c.reused == old(self).peers().contains(config.remote_address),
            c.connection < final(self).peers().len(),
            final(self).peers()[c.connection as int] == config.remote_address,
    {
        match self.find(config.remote_address) {
            Some(i) => ClientSubConnection {
                connection: i as u64,
                reused: true,
                streams: config.opened_bi_streams_number,
                channel: true,
            },
            None => {
                let i: usize = self.peers.len();
                self.peers.push(config.remote_address);
                assert(self.peers@ =~= old(self).peers@.push(config.remote_address));
                assert(self.peers@.no_duplicates()) by {
                    assert forall|a: int, b: int|
                        0 <= a < self.peers@.len() && 0 <= b < self.peers@.len() && a
                            != b implies self.peers@[a] != self.peers@[b] by {
                        if a < i && b < i {
                            assert(old(self).peers@[a] != old(self).peers@[b]);
                        } else if a < i {
                            assert(old(self).peers@.contains(old(self).peers@[a]));
                        } else {
                            assert(old(self).peers@.contains(old(self).peers@[b]));
                        }
                    }
                }
                ClientSubConnection {
                    connection: i as u64,
                    reused: false,
                    streams: config.opened_bi_streams_number,
                    channel: true,
                }
            },
        }
    }
}

} // verus!
