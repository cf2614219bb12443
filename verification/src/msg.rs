//! The message envelope and its wire format.
//!
//! An envelope is a fixed head of 44 bytes followed by an extension and a
//! payload, each at most 65535 bytes long. All integers are big-endian.
//!
//! ```text
//!   offset  size  field
//!     0      2    version
//!     2      2    type
//!     4      8    sender
//!    12      8    receiver
//!    20      8    timestamp (ms)
//!    28      8    seqnum
//!    36      4    node_id
//!    40      2    extension_length
//!    42      2    payload_length
//!    44      E    extension
//!    44+E    P    payload
//! ```

use vstd::prelude::*;
use vstd::slice::{slice_subrange, slice_to_vec};
use vstd::utf8::encode_utf8;
use crate::wire::{
    be16, be32, be64, copy_range, from_be16, from_be32, from_be64, get_be16, get_be32, get_be64,
    lemma_be16_roundtrip, lemma_be32_roundtrip, lemma_be64_roundtrip, lemma_from_be16_roundtrip,
    lemma_from_be32_roundtrip, lemma_from_be64_roundtrip, put_be16, put_be32, put_be64, put_bytes,
};

verus! {

/// Length of the fixed head.
pub const HEAD_LEN: usize = 44;

/// The only version of the format.
pub const VERSION: u16 = 1;

/// Largest length of a payload, and of an extension.
pub const MAX_PART_LEN: usize = 65535;

/// Length of the prefix that announces the head on a stream.
pub const PREFIX_LEN: usize = 4;

/// Why bytes are no envelope, or an envelope has no bytes.
#[derive(Clone, Copy, Debug, PartialEq, Eq, Structural)]
pub enum FrameError {
    /// The payload is longer than 65535 bytes.
    PayloadTooLarge,
    /// The extension is longer than 65535 bytes.
    ExtensionTooLarge,
    /// The bytes end before the head, or before the body that the head
    /// announces.
    Truncated,
    /// The head names a version other than 1.
    BadVersion,
    /// Bytes follow the body that the head announces.
    TrailingBytes,
    /// The stream prefix announces a head of another length than 44.
    BadHeadLength,
}

/// The ranges of the type space.
#[derive(Clone, Copy, Debug, PartialEq, Eq, Structural)]
pub enum Category {
    /// `[0, 16)`: noop, ack, auth and the like.
    Control,
    /// `[16, 32)`.
    Signalling,
    /// `[32, 64)`: user text.
    Text,
    /// `[64, 96)`: groups, friends, system, remote invocation.
    Business,
    /// `[96, 128)`: registration of nodes.
    Internal,
    /// `128` and above.
    Unassigned,
}

/// The range that a type number falls in.
pub open spec fn spec_category(typ: u16) -> Category {
    if typ < 16 {
        Category::Control
    } else if typ < 32 {
        Category::Signalling
    } else if typ < 64 {
        Category::Text
    } else if typ < 96 {
        Category::Business
    } else if typ < 128 {
        Category::Internal
    } else {
        Category::Unassigned
    }
}

/// The range that a type number falls in.
pub fn category(typ: u16) -> (c: Category)
    ensures
        c == spec_category(typ),
{
    if typ < 16 {
        Category::Control
    } else if typ < 32 {
        Category::Signalling
    } else if typ < 64 {
        Category::Text
    } else if typ < 96 {
        Category::Business
    } else if typ < 128 {
        Category::Internal
    } else {
        Category::Unassigned
    }
}

/// The message types that have a name. Every other number is `Other`.
#[derive(Clone, Copy, Debug, PartialEq, Eq, Structural)]
pub enum Type {
    Noop,
    Auth,
    Ack,
    Error,
    Ping,
    Pong,
    Echo,
    Text,
    JoinGroup,
    LeaveGroup,
    AddFriend,
    RemoveFriend,
    SystemMessage,
    RemoteInvoke,
    SetRelationship,
    MessageNodeRegister,
    MessageNodeUnregister,
    SchedulerNodeRegister,
    Other(u16),
}

impl Type {
    /// The number of a type on the wire.
    pub open spec fn spec_value(self) -> u16 {
        match self {
            Type::Noop => 0,
            Type::Auth => 1,
            Type::Ack => 2,
            Type::Error => 3,
            Type::Ping => 4,
            Type::Pong => 5,
            Type::Echo => 6,
            Type::Text => 32,
            Type::JoinGroup => 64,
            Type::LeaveGroup => 65,
            Type::AddFriend => 66,
            Type::RemoveFriend => 67,
            Type::SystemMessage => 68,
            Type::RemoteInvoke => 69,
            Type::SetRelationship => 70,
            Type::MessageNodeRegister => 96,
            Type::MessageNodeUnregister => 97,
            Type::SchedulerNodeRegister => 98,
            Type::Other(v) => v,
        }
    }

    /// The type that a number names.
    pub open spec fn spec_from_value(v: u16) -> Type {
        if v == 0 {
            Type::Noop
        } else if v == 1 {
            Type::Auth
        } else if v == 2 {
            Type::Ack
        } else if v == 3 {
            Type::Error
        } else if v == 4 {
            Type::Ping
        } else if v == 5 {
            Type::Pong
        } else if v == 6 {
            Type::Echo
        } else if v == 32 {
            Type::Text
        } else if v == 64 {
            Type::JoinGroup
        } else if v == 65 {
            Type::LeaveGroup
        } else if v == 66 {
            Type::AddFriend
        } else if v == 67 {
            Type::RemoveFriend
        } else if v == 68 {
            Type::SystemMessage
        } else if v == 69 {
            Type::RemoteInvoke
        } else if v == 70 {
            Type::SetRelationship
        } else if v == 96 {
            Type::MessageNodeRegister
        } else if v == 97 {
            Type::MessageNodeUnregister
        } else if v == 98 {
            Type::SchedulerNodeRegister
        } else {
            Type::Other(v)
        }
    }

    /// The number of a type on the wire.
    pub fn value(&self) -> (v: u16)
        ensures
            v == self.spec_value(),
    {
        match self {
            Type::Noop => 0,
            Type::Auth => 1,
            Type::Ack => 2,
            Type::Error => 3,
            Type::Ping => 4,
            Type::Pong => 5,
            Type::Echo => 6,
            Type::Text => 32,
            Type::JoinGroup => 64,
            Type::LeaveGroup => 65,
            Type::AddFriend => 66,
            Type::RemoveFriend => 67,
            Type::SystemMessage => 68,
            Type::RemoteInvoke => 69,
            Type::SetRelationship => 70,
            Type::MessageNodeRegister => 96,
            Type::MessageNodeUnregister => 97,
            Type::SchedulerNodeRegister => 98,
            Type::Other(v) => *v,
        }
    }

    /// The type that a number names.
    pub fn from_value(v: u16) -> (t: Type)
        ensures
            t == Type::spec_from_value(v),
    {
        if v == 0 {
            Type::Noop
        } else if v == 1 {
            Type::Auth
        } else if v == 2 {
            Type::Ack
        } else if v == 3 {
            Type::Error
        } else if v == 4 {
            Type::Ping
        } else if v == 5 {
            Type::Pong
        } else if v == 6 {
            Type::Echo
        } else if v == 32 {
            Type::Text
        } else if v == 64 {
            Type::JoinGroup
        } else if v == 65 {
            Type::LeaveGroup
        } else if v == 66 {
            Type::AddFriend
        } else if v == 67 {
            Type::RemoveFriend
        } else if v == 68 {
            Type::SystemMessage
        } else if v == 69 {
            Type::RemoteInvoke
        } else if v == 70 {
            Type::SetRelationship
        } else if v == 96 {
            Type::MessageNodeRegister
        } else if v == 97 {
            Type::MessageNodeUnregister
        } else if v == 98 {
            Type::SchedulerNodeRegister
        } else {
            Type::Other(v)
        }
    }
}

/// Every number names a type that has that number.
pub proof fn lemma_type_value_roundtrip(v: u16)
    ensures
        Type::spec_from_value(v).spec_value() == v,
{
}

/// The fixed head of an envelope, as it stands on the wire.
#[derive(Clone, Copy, Debug, PartialEq, Eq, Structural)]
pub struct Head {
    pub version: u16,
    pub typ: u16,
    pub sender: u64,
    pub receiver: u64,
    pub timestamp: u64,
    pub seqnum: u64,
    pub node_id: u32,
    pub extension_length: u16,
    pub payload_length: u16,
}

impl Head {
    /// The 44 bytes of a head.
    pub open spec fn spec_bytes(self) -> Seq<u8> {
        be16(self.version) + be16(self.typ) + be64(self.sender) + be64(self.receiver) + be64(
            self.timestamp,
        ) + be64(self.seqnum) + be32(self.node_id) + be16(self.extension_length) + be16(
            self.payload_length,
        )
    }

    /// Number of bytes that follow the head: extension and payload.
    pub open spec fn spec_body_len(self) -> int {
        self.extension_length as int + self.payload_length as int
    }

    /// Number of bytes that follow the head: extension and payload.
    pub fn body_len(&self) -> (n: usize)
        ensures
            n == self.spec_body_len(),
    {
        self.extension_length as usize + self.payload_length as usize
    }

    /// Number of bytes of the whole envelope, head included.
    pub fn frame_len(&self) -> (n: usize)
        ensures
            n == HEAD_LEN + self.spec_body_len(),
    {
        HEAD_LEN + self.extension_length as usize + self.payload_length as usize
    }
}

/// The head that the first 44 bytes of `b` spell, whatever its version.
pub open spec fn spec_read_head(b: Seq<u8>) -> Head {
    Head {
        version: from_be16(b, 0),
        typ: from_be16(b, 2),
        sender: from_be64(b, 4),
        receiver: from_be64(b, 12),
        timestamp: from_be64(b, 20),
        seqnum: from_be64(b, 28),
        node_id: from_be32(b, 36),
        extension_length: from_be16(b, 40),
        payload_length: from_be16(b, 42),
    }
}

/// What `decode_head` makes of `b`: the bytes must hold a whole head of
/// version 1.
pub open spec fn spec_decode_head(b: Seq<u8>) -> Result<Head, FrameError> {
    if b.len() < HEAD_LEN {
        Err(FrameError::Truncated)
    } else if from_be16(b, 0) != VERSION {
        Err(FrameError::BadVersion)
    } else {
        Ok(spec_read_head(b))
    }
}

/// An envelope.
#[derive(Debug, PartialEq, Eq)]
pub struct Msg {
    pub version: u16,
    pub typ: u16,
    pub sender: u64,
    pub receiver: u64,
    pub timestamp: u64,
    pub seqnum: u64,
    pub node_id: u32,
    pub extension: Vec<u8>,
    pub payload: Vec<u8>,
}

/// An envelope as a mathematical value.
pub ghost struct MsgView {
    pub version: u16,
    pub typ: u16,
    pub sender: u64,
    pub receiver: u64,
    pub timestamp: u64,
    pub seqnum: u64,
    pub node_id: u32,
    pub extension: Seq<u8>,
    pub payload: Seq<u8>,
}

impl View for Msg {
    type V = MsgView;

    open spec fn view(&self) -> MsgView {
        MsgView {
            version: self.version,
            typ: self.typ,
            sender: self.sender,
            receiver: self.receiver,
            timestamp: self.timestamp,
            seqnum: self.seqnum,
            node_id: self.node_id,
            extension: self.extension@,
            payload: self.payload@,
        }
    }
}

impl MsgView {
    /// Both parts of the body fit their 16-bit length fields.
    pub open spec fn encodable(self) -> bool {
        self.extension.len() <= MAX_PART_LEN && self.payload.len() <= MAX_PART_LEN
    }

    /// The head that announces this envelope.
    pub open spec fn head(self) -> Head {
        Head {
            version: self.version,
            typ: self.typ,
            sender: self.sender,
            receiver: self.receiver,
            timestamp: self.timestamp,
            seqnum: self.seqnum,
            node_id: self.node_id,
            extension_length: self.extension.len() as u16,
            payload_length: self.payload.len() as u16,
        }
    }
}

/// The envelope that a head and the bytes after it make.
pub open spec fn spec_assemble(h: Head, body: Seq<u8>) -> MsgView {
    MsgView {
        version: h.version,
        typ: h.typ,
        sender: h.sender,
        receiver: h.receiver,
        timestamp: h.timestamp,
        seqnum: h.seqnum,
        node_id: h.node_id,
        extension: body.subrange(0, h.extension_length as int),
        payload: body.subrange(h.extension_length as int, h.spec_body_len()),
    }
}

/// The bytes of an envelope: head, extension, payload.
pub open spec fn spec_encode(m: MsgView) -> Seq<u8> {
    m.head().spec_bytes() + m.extension + m.payload
}

/// What `decode` makes of `b`.
pub open spec fn spec_decode(b: Seq<u8>) -> Result<MsgView, FrameError> {
    match spec_decode_head(b) {
        Err(e) => Err(e),
        Ok(h) => {
            if b.len() < HEAD_LEN + h.spec_body_len() {
                Err(FrameError::Truncated)
            } else if b.len() > HEAD_LEN + h.spec_body_len() {
                Err(FrameError::TrailingBytes)
            } else {
                Ok(spec_assemble(h, b.subrange(HEAD_LEN as int, b.len() as int)))
            }
        },
    }
}

/// The result of a decoding, the envelope taken as a mathematical value.
pub open spec fn decoded(r: Result<Msg, FrameError>) -> Result<MsgView, FrameError> {
    match r {
        Ok(m) => Ok(m@),
        Err(e) => Err(e),
    }
}

/// The bytes of a head are 44, and spell that head.
#[verifier::spinoff_prover]
#[verifier::rlimit(60)]
pub proof fn lemma_head_roundtrip(h: Head, rest: Seq<u8>)
    ensures
        h.spec_bytes().len() == HEAD_LEN,
        spec_read_head(h.spec_bytes() + rest) == h,
{
    let hb = h.spec_bytes();
    let b = hb + rest;
    lemma_be16_roundtrip(h.version);
    lemma_be16_roundtrip(h.typ);
    lemma_be64_roundtrip(h.sender);
    lemma_be64_roundtrip(h.receiver);
    lemma_be64_roundtrip(h.timestamp);
    lemma_be64_roundtrip(h.seqnum);
    lemma_be32_roundtrip(h.node_id);
    lemma_be16_roundtrip(h.extension_length);
    lemma_be16_roundtrip(h.payload_length);
    assert(hb.len() == 44);
    assert(b.subrange(0, 2) =~= be16(h.version));
    assert(b.subrange(2, 4) =~= be16(h.typ));
    assert(b.subrange(4, 12) =~= be64(h.sender));
    assert(b.subrange(12, 20) =~= be64(h.receiver));
    assert(b.subrange(20, 28) =~= be64(h.timestamp));
    assert(b.subrange(28, 36) =~= be64(h.seqnum));
    assert(b.subrange(36, 40) =~= be32(h.node_id));
    assert(b.subrange(40, 42) =~= be16(h.extension_length));
    assert(b.subrange(42, 44) =~= be16(h.payload_length));
    lemma_from_be16_at(b, 0);
    lemma_from_be16_at(b, 2);
    lemma_from_be64_at(b, 4);
    lemma_from_be64_at(b, 12);
    lemma_from_be64_at(b, 20);
    lemma_from_be64_at(b, 28);
    lemma_from_be32_at(b, 36);
    lemma_from_be16_at(b, 40);
    lemma_from_be16_at(b, 42);
}

proof fn lemma_from_be16_at(b: Seq<u8>, at: int)
    requires
        0 <= at,
        at + 2 <= b.len(),
    ensures
        from_be16(b, at) == from_be16(b.subrange(at, at + 2), 0),
{
}

proof fn lemma_from_be32_at(b: Seq<u8>, at: int)
    requires
        0 <= at,
        at + 4 <= b.len(),
    ensures
        from_be32(b, at) == from_be32(b.subrange(at, at + 4), 0),
{
}

proof fn lemma_from_be64_at(b: Seq<u8>, at: int)
    requires
        0 <= at,
        at + 8 <= b.len(),
    ensures
        from_be64(b, at) == from_be64(b.subrange(at, at + 8), 0),
{
}

/// Round trip: an envelope of version 1 whose parts fit comes back from its
/// own bytes unchanged.
pub proof fn lemma_decode_encode(m: MsgView)
    requires
        m.version == VERSION,
        m.encodable(),
    ensures
        spec_encode(m).len() == HEAD_LEN + m.extension.len() + m.payload.len(),
        spec_decode(spec_encode(m)) == Ok::<MsgView, FrameError>(m),
{
    let h = m.head();
    let b = spec_encode(m);
    lemma_head_roundtrip(h, m.extension + m.payload);
    assert(b =~= h.spec_bytes() + (m.extension + m.payload));
    assert(spec_read_head(b) == h);
    assert(from_be16(b, 0) == h.version);
    let body = b.subrange(HEAD_LEN as int, b.len() as int);
    assert(body =~= m.extension + m.payload);
    let back = spec_assemble(h, body);
    assert(back.extension =~= m.extension);
    assert(back.payload =~= m.payload);
}

impl Msg {
    /// The named type of this envelope.
    pub fn typ(&self) -> (t: Type)
        ensures
            t == Type::spec_from_value(self.typ),
    {
        Type::from_value(self.typ)
    }

    /// A copy of this envelope.
    pub fn duplicate(&self) -> (m: Msg)
        ensures
            m@ == self@,
    {
        Msg {
            version: self.version,
            typ: self.typ,
            sender: self.sender,
            receiver: self.receiver,
            timestamp: self.timestamp,
            seqnum: self.seqnum,
            node_id: self.node_id,
            extension: slice_to_vec(self.extension.as_slice()),
            payload: slice_to_vec(self.payload.as_slice()),
        }
    }

    /// The head that announces this envelope.
    pub fn head(&self) -> (h: Head)
        requires
            self@.encodable(),
        ensures
            h == self@.head(),
    {
        Head {
            version: self.version,
            typ: self.typ,
            sender: self.sender,
            receiver: self.receiver,
            timestamp: self.timestamp,
            seqnum: self.seqnum,
            node_id: self.node_id,
            extension_length: self.extension.len() as u16,
            payload_length: self.payload.len() as u16,
        }
    }

    /// The bytes of this envelope. Fails, payload first, where a part of the
    /// body is longer than 65535 bytes.
    pub fn encode(&self) -> (r: Result<Vec<u8>, FrameError>)
        ensures
            self@.payload.len() > MAX_PART_LEN ==> r == Err::<Vec<u8>, FrameError>(
                FrameError::PayloadTooLarge,
            ),
            self@.payload.len() <= MAX_PART_LEN && self@.extension.len() > MAX_PART_LEN ==> r
                == Err::<Vec<u8>, FrameError>(FrameError::ExtensionTooLarge),
            self@.encodable() ==> r is Ok && r->Ok_0@ == spec_encode(self@),
    {
        if self.payload.len() > MAX_PART_LEN {
            return Err(FrameError::PayloadTooLarge);
        }
        if self.extension.len() > MAX_PART_LEN {
            return Err(FrameError::ExtensionTooLarge);
        }
        let h = self.head();
        let mut out: Vec<u8> = Vec::new();
        put_head(&mut out, &h);
        put_bytes(&mut out, self.extension.as_slice());
        put_bytes(&mut out, self.payload.as_slice());
        assert(out@ =~= spec_encode(self@));
        Ok(out)
    }
}

/// Appends the 44 bytes of `h` to `out`.
#[verifier::spinoff_prover]
#[verifier::rlimit(60)]
pub fn put_head(out: &mut Vec<u8>, h: &Head)
    ensures
        final(out)@ == old(out)@ + h.spec_bytes(),
{
    let ghost start = out@;
    put_be16(out, h.version);
    put_be16(out, h.typ);
    let ghost first = be16(h.version) + be16(h.typ);
    assert(out@ =~= start + first);
    put_be64(out, h.sender);
    put_be64(out, h.receiver);
    let ghost second = first + be64(h.sender) + be64(h.receiver);
    assert(out@ =~= start + second);
    put_be64(out, h.timestamp);
    put_be64(out, h.seqnum);
    let ghost third = second + be64(h.timestamp) + be64(h.seqnum);
    assert(out@ =~= start + third);
    put_be32(out, h.node_id);
    put_be16(out, h.extension_length);
    put_be16(out, h.payload_length);
    let ghost whole = third + be32(h.node_id) + be16(h.extension_length) + be16(h.payload_length);
    assert(out@ =~= start + whole);
    assert(whole == h.spec_bytes());
}

/// Reads a head from the first 44 bytes of `bytes`. What follows them is
/// not looked at: the head alone tells how long the envelope is.
pub fn decode_head(bytes: &[u8]) -> (r: Result<Head, FrameError>)
    ensures
        r == spec_decode_head(bytes@),
{
    if bytes.len() < HEAD_LEN {
        return Err(FrameError::Truncated);
    }
    let version = get_be16(bytes, 0);
    if version != VERSION {
        return Err(FrameError::BadVersion);
    }
    Ok(
        Head {
            version,
            typ: get_be16(bytes, 2),
            sender: get_be64(bytes, 4),
            receiver: get_be64(bytes, 12),
            timestamp: get_be64(bytes, 20),
            seqnum: get_be64(bytes, 28),
            node_id: get_be32(bytes, 36),
            extension_length: get_be16(bytes, 40),
            payload_length: get_be16(bytes, 42),
        },
    )
}

/// Joins a head with the bytes that were read after it.
pub fn assemble(h: &Head, body: &[u8]) -> (r: Result<Msg, FrameError>)
    ensures
        body@.len() < h.spec_body_len() ==> r is Err && r->Err_0 == FrameError::Truncated,
        body@.len() > h.spec_body_len() ==> r is Err && r->Err_0 == FrameError::TrailingBytes,
        body@.len() == h.spec_body_len() ==> r is Ok && r->Ok_0@ == spec_assemble(*h, body@),
{
    let e: usize = h.extension_length as usize;
    let n: usize = h.body_len();
    if body.len() < n {
        return Err(FrameError::Truncated);
    }
    if body.len() > n {
        return Err(FrameError::TrailingBytes);
    }
    Ok(
        Msg {
            version: h.version,
            typ: h.typ,
            sender: h.sender,
            receiver: h.receiver,
            timestamp: h.timestamp,
            seqnum: h.seqnum,
            node_id: h.node_id,
            extension: copy_range(body, 0, e),
            payload: copy_range(body, e, n),
        },
    )
}

/// Reads one envelope from `bytes`, which must hold it exactly.
pub fn decode(bytes: &[u8]) -> (r: Result<Msg, FrameError>)
    ensures
        decoded(r) == spec_decode(bytes@),
{
    match decode_head(bytes) {
        Err(e) => Err(e),
        Ok(h) => {
            let e: usize = h.extension_length as usize;
            let total: usize = h.frame_len();
            if bytes.len() < total {
                return Err(FrameError::Truncated);
            }
            if bytes.len() > total {
                return Err(FrameError::TrailingBytes);
            }
            let m = Msg {
                version: h.version,
                typ: h.typ,
                sender: h.sender,
                receiver: h.receiver,
                timestamp: h.timestamp,
                seqnum: h.seqnum,
                node_id: h.node_id,
                extension: copy_range(bytes, HEAD_LEN, HEAD_LEN + e),
                payload: copy_range(bytes, HEAD_LEN + e, total),
            };
            proof {
                let body = bytes@.subrange(HEAD_LEN as int, bytes@.len() as int);
                assert(m@.extension =~= body.subrange(0, e as int));
                assert(m@.payload =~= body.subrange(e as int, h.spec_body_len()));
            }
            Ok(m)
        },
    }
}

/// The acknowledgement of `m` by node `node_id`: sender and receiver as in
/// `m`, the client's timestamp carried in the timestamp field.
pub open spec fn spec_ack(m: MsgView, node_id: u32, client_timestamp: u64) -> MsgView {
    MsgView {
        version: VERSION,
        typ: Type::Ack.spec_value(),
        sender: m.sender,
        receiver: m.receiver,
        timestamp: client_timestamp,
        seqnum: m.seqnum,
        node_id,
        extension: Seq::empty(),
        payload: Seq::empty(),
    }
}

/// The envelope that does nothing.
pub open spec fn spec_noop() -> MsgView {
    MsgView {
        version: VERSION,
        typ: Type::Noop.spec_value(),
        sender: 0,
        receiver: 0,
        timestamp: 0,
        seqnum: 0,
        node_id: 0,
        extension: Seq::empty(),
        payload: Seq::empty(),
    }
}

/// The request of user `user_id` to be admitted at node `node_id`, the
/// token as payload.
pub open spec fn spec_auth(user_id: u64, receiver: u64, node_id: u32, token: Seq<u8>) -> MsgView {
    MsgView {
        version: VERSION,
        typ: Type::Auth.spec_value(),
        sender: user_id,
        receiver,
        timestamp: 0,
        seqnum: 0,
        node_id,
        extension: Seq::empty(),
        payload: token,
    }
}

impl Msg {
    /// The envelope that does nothing.
    pub fn noop() -> (m: Msg)
        ensures
            m@ == spec_noop(),
    {
        Msg {
            version: VERSION,
            typ: Type::Noop.value(),
            sender: 0,
            receiver: 0,
            timestamp: 0,
            seqnum: 0,
            node_id: 0,
            extension: Vec::new(),
            payload: Vec::new(),
        }
    }

    /// An envelope of type noop that carries `payload` and `extension`.
    pub fn from_payload_extension(payload: &[u8], extension: &[u8]) -> (m: Msg)
        ensures
            m@ == (MsgView { extension: extension@, payload: payload@, ..spec_noop() }),
    {
        Msg {
            version: VERSION,
            typ: Type::Noop.value(),
            sender: 0,
            receiver: 0,
            timestamp: 0,
            seqnum: 0,
            node_id: 0,
            extension: slice_to_vec(extension),
            payload: slice_to_vec(payload),
        }
    }

    /// The request of user `user_id` to be admitted at node `node_id`, the
    /// token's UTF-8 bytes as payload.
    pub fn auth(user_id: u64, receiver: u64, node_id: u32, token: String) -> (m: Msg)
        ensures
            m@ == spec_auth(user_id, receiver, node_id, encode_utf8(token@)),
    {
        Msg {
            version: VERSION,
            typ: Type::Auth.value(),
            sender: user_id,
            receiver,
            timestamp: 0,
            seqnum: 0,
            node_id,
            extension: Vec::new(),
            payload: slice_to_vec(token.as_str().as_bytes()),
        }
    }

    /// The acknowledgement of this envelope by node `node_id`.
    pub fn generate_ack(&self, node_id: u32, client_timestamp: u64) -> (ack: Msg)
        ensures
            ack@ == spec_ack(self@, node_id, client_timestamp),
    {
        Msg {
            version: VERSION,
            typ: Type::Ack.value(),
            sender: self.sender,
            receiver: self.receiver,
            timestamp: client_timestamp,
            seqnum: self.seqnum,
            node_id,
            extension: Vec::new(),
            payload: Vec::new(),
        }
    }

    /// The bytes of this envelope behind the prefix that announces its head
    /// on a stream.
    pub fn frame(&self) -> (r: Result<Vec<u8>, FrameError>)
        ensures
            self@.payload.len() > MAX_PART_LEN ==> r == Err::<Vec<u8>, FrameError>(
                FrameError::PayloadTooLarge,
            ),
            self@.payload.len() <= MAX_PART_LEN && self@.extension.len() > MAX_PART_LEN ==> r
                == Err::<Vec<u8>, FrameError>(FrameError::ExtensionTooLarge),
            self@.encodable() ==> r is Ok && r->Ok_0@ == spec_frame(self@),
    {
        if self.payload.len() > MAX_PART_LEN {
            return Err(FrameError::PayloadTooLarge);
        }
        if self.extension.len() > MAX_PART_LEN {
            return Err(FrameError::ExtensionTooLarge);
        }
        let h = self.head();
        let mut out: Vec<u8> = Vec::new();
        put_be32(&mut out, HEAD_LEN as u32);
        put_head(&mut out, &h);
        put_bytes(&mut out, self.extension.as_slice());
        put_bytes(&mut out, self.payload.as_slice());
        assert(out@ =~= spec_frame(self@));
        Ok(out)
    }
}

/// The four bytes that announce a head on a stream: its length.
pub open spec fn spec_prefix() -> Seq<u8> {
    be32(HEAD_LEN as u32)
}

/// An envelope as it stands on a stream: prefix, then the envelope.
pub open spec fn spec_frame(m: MsgView) -> Seq<u8> {
    spec_prefix() + spec_encode(m)
}

/// What `check_prefix` makes of `b`.
pub open spec fn spec_check_prefix(b: Seq<u8>) -> Result<(), FrameError> {
    if b.len() < PREFIX_LEN {
        Err(FrameError::Truncated)
    } else if from_be32(b, 0) != HEAD_LEN {
        Err(FrameError::BadHeadLength)
    } else {
        Ok(())
    }
}

/// What `unframe` makes of `b`.
pub open spec fn spec_unframe(b: Seq<u8>) -> Result<MsgView, FrameError> {
    match spec_check_prefix(b) {
        Err(e) => Err(e),
        Ok(_) => spec_decode(b.subrange(PREFIX_LEN as int, b.len() as int)),
    }
}

/// Tests the first four bytes of `bytes`: they must announce a head of 44
/// bytes.
pub fn check_prefix(bytes: &[u8]) -> (r: Result<(), FrameError>)
    ensures
        r == spec_check_prefix(bytes@),
{
    if bytes.len() < PREFIX_LEN {
        return Err(FrameError::Truncated);
    }
    if get_be32(bytes, 0) != HEAD_LEN as u32 {
        return Err(FrameError::BadHeadLength);
    }
    Ok(())
}

/// Reads one envelope from `bytes`, which must hold the prefix and the
/// envelope exactly.
pub fn unframe(bytes: &[u8]) -> (r: Result<Msg, FrameError>)
    ensures
        decoded(r) == spec_unframe(bytes@),
{
    match check_prefix(bytes) {
        Err(e) => Err(e),
        Ok(_) => decode(slice_subrange(bytes, PREFIX_LEN, bytes.len())),
    }
}

/// Round trip on a stream: an envelope of version 1 whose parts fit comes
/// back from its own frame unchanged.
pub proof fn lemma_unframe_frame(m: MsgView)
    requires
        m.version == VERSION,
        m.encodable(),
    ensures
        spec_unframe(spec_frame(m)) == Ok::<MsgView, FrameError>(m),
{
    let b = spec_frame(m);
    lemma_be32_roundtrip(HEAD_LEN as u32);
    lemma_decode_encode(m);
    assert(b.subrange(0, 4) =~= be32(HEAD_LEN as u32));
    lemma_from_be32_at(b, 0);
    assert(b.subrange(PREFIX_LEN as int, b.len() as int) =~= spec_encode(m));
}

/// The bytes of the head that 44 bytes spell are those 44 bytes.
#[verifier::spinoff_prover]
#[verifier::rlimit(60)]
pub proof fn lemma_read_head_bytes(b: Seq<u8>)
    requires
        b.len() >= HEAD_LEN,
    ensures
        spec_read_head(b).spec_bytes() == b.subrange(0, HEAD_LEN as int),
{
    lemma_from_be16_roundtrip(b, 0);
    lemma_from_be16_roundtrip(b, 2);
    lemma_from_be64_roundtrip(b, 4);
    lemma_from_be64_roundtrip(b, 12);
    lemma_from_be64_roundtrip(b, 20);
    lemma_from_be64_roundtrip(b, 28);
    lemma_from_be32_roundtrip(b, 36);
    lemma_from_be16_roundtrip(b, 40);
    lemma_from_be16_roundtrip(b, 42);
    let first = b.subrange(0, 2) + b.subrange(2, 4);
    assert(first =~= b.subrange(0, 4));
    let second = first + b.subrange(4, 12) + b.subrange(12, 20);
    assert(second =~= b.subrange(0, 20));
    let third = second + b.subrange(20, 28) + b.subrange(28, 36);
    assert(third =~= b.subrange(0, 36));
    let whole = third + b.subrange(36, 40) + b.subrange(40, 42) + b.subrange(42, 44);
    assert(whole =~= b.subrange(0, 44));
}

/// One envelope, one spelling: bytes that decode to an envelope are the
/// bytes of that envelope, and the envelope is of version 1 with parts
/// that fit.
pub proof fn lemma_encode_decode(b: Seq<u8>, m: MsgView)
    requires
        spec_decode(b) == Ok::<MsgView, FrameError>(m),
    ensures
        m.version == VERSION,
        m.encodable(),
        spec_encode(m) == b,
{
    let h = spec_read_head(b);
    lemma_read_head_bytes(b);
    let body = b.subrange(HEAD_LEN as int, b.len() as int);
    assert(m == spec_assemble(h, body));
    assert(m.head() == h);
    assert(spec_encode(m) =~= b);
}

} // verus!
