use prim::key::key;
use prim::msg::{
    category, check_prefix, decode, decode_head, unframe, Category, FrameError, Msg, Type,
    HEAD_LEN,
};

fn sample() -> Msg {
    Msg {
        version: 1,
        typ: 32,
        sender: 10,
        receiver: 11,
        timestamp: 1_700_000_000_123,
        seqnum: 7,
        node_id: 3,
        extension: vec![9, 8],
        payload: b"yo".to_vec(),
    }
}

#[test]
fn encode_lays_out_the_head_big_endian() {
    let bytes = sample().encode().unwrap();
    assert_eq!(bytes.len(), HEAD_LEN + 4);
    assert_eq!(&bytes[0..2], &[0, 1]);
    assert_eq!(&bytes[2..4], &[0, 32]);
    assert_eq!(&bytes[4..12], &[0, 0, 0, 0, 0, 0, 0, 10]);
    assert_eq!(&bytes[12..20], &[0, 0, 0, 0, 0, 0, 0, 11]);
    assert_eq!(&bytes[20..28], &1_700_000_000_123u64.to_be_bytes());
    assert_eq!(&bytes[28..36], &[0, 0, 0, 0, 0, 0, 0, 7]);
    assert_eq!(&bytes[36..40], &[0, 0, 0, 3]);
    assert_eq!(&bytes[40..42], &[0, 2]);
    assert_eq!(&bytes[42..44], &[0, 2]);
    assert_eq!(&bytes[44..46], &[9, 8]);
    assert_eq!(&bytes[46..48], b"yo");
}

#[test]
fn decode_returns_what_encode_took() {
    let m = sample();
    let bytes = m.encode().unwrap();
    assert_eq!(decode(&bytes), Ok(sample()));
    assert_eq!(m, sample());
}

#[test]
fn round_trip_with_largest_parts() {
    let mut m = sample();
    m.payload = vec![0xab; 65535];
    m.extension = vec![0xcd; 65535];
    m.sender = u64::MAX;
    m.node_id = u32::MAX;
    let bytes = m.encode().unwrap();
    assert_eq!(bytes.len(), 44 + 65535 + 65535);
    assert_eq!(decode(&bytes), Ok(m));
}

#[test]
fn encode_rejects_a_payload_of_65536_bytes() {
    let mut m = sample();
    m.payload = vec![0; 65536];
    assert_eq!(m.encode(), Err(FrameError::PayloadTooLarge));
    assert_eq!(m.frame(), Err(FrameError::PayloadTooLarge));
}

#[test]
fn encode_rejects_an_extension_of_65536_bytes() {
    let mut m = sample();
    m.extension = vec![0; 65536];
    assert_eq!(m.encode(), Err(FrameError::ExtensionTooLarge));
}

#[test]
fn payload_is_tested_before_extension() {
    let mut m = sample();
    m.extension = vec![0; 65536];
    m.payload = vec![0; 65536];
    assert_eq!(m.encode(), Err(FrameError::PayloadTooLarge));
}

#[test]
fn decode_rejects_short_input() {
    assert_eq!(decode(&[]), Err(FrameError::Truncated));
    let bytes = sample().encode().unwrap();
    assert_eq!(decode(&bytes[..43]), Err(FrameError::Truncated));
    assert_eq!(decode(&bytes[..47]), Err(FrameError::Truncated));
}

#[test]
fn decode_rejects_trailing_bytes() {
    let mut bytes = sample().encode().unwrap();
    bytes.push(0);
    assert_eq!(decode(&bytes), Err(FrameError::TrailingBytes));
}

#[test]
fn decode_rejects_other_versions() {
    let mut bytes = sample().encode().unwrap();
    bytes[1] = 2;
    assert_eq!(decode(&bytes), Err(FrameError::BadVersion));
    assert_eq!(decode_head(&bytes), Err(FrameError::BadVersion));
}

#[test]
fn head_alone_gives_the_length_of_the_frame() {
    let bytes = sample().encode().unwrap();
    let head = decode_head(&bytes[..44]).unwrap();
    assert_eq!(head.body_len(), 4);
    assert_eq!(head.frame_len(), bytes.len());
    assert_eq!(head.extension_length, 2);
    assert_eq!(head.payload_length, 2);
}

#[test]
fn frame_puts_the_head_length_in_front() {
    let m = sample();
    let framed = m.frame().unwrap();
    assert_eq!(&framed[..4], &[0, 0, 0, 44]);
    assert_eq!(&framed[4..], &m.encode().unwrap()[..]);
    assert_eq!(unframe(&framed), Ok(sample()));
}

#[test]
fn unframe_rejects_another_head_length() {
    let mut framed = sample().frame().unwrap();
    framed[3] = 16;
    assert_eq!(unframe(&framed), Err(FrameError::BadHeadLength));
    assert_eq!(check_prefix(&framed[..4]), Err(FrameError::BadHeadLength));
    assert_eq!(check_prefix(&framed[..3]), Err(FrameError::Truncated));
}

#[test]
fn type_numbers_are_stable() {
    assert_eq!(Type::Auth.value(), 1);
    assert_eq!(Type::Ack.value(), 2);
    assert_eq!(Type::Error.value(), 3);
    assert_eq!(Type::Ping.value(), 4);
    assert_eq!(Type::Pong.value(), 5);
    assert_eq!(Type::Echo.value(), 6);
    assert_eq!(Type::Text.value(), 32);
    assert_eq!(Type::JoinGroup.value(), 64);
    assert_eq!(Type::LeaveGroup.value(), 65);
    assert_eq!(Type::AddFriend.value(), 66);
    assert_eq!(Type::RemoveFriend.value(), 67);
    assert_eq!(Type::SystemMessage.value(), 68);
    assert_eq!(Type::RemoteInvoke.value(), 69);
    assert_eq!(Type::SetRelationship.value(), 70);
    assert_eq!(Type::MessageNodeRegister.value(), 96);
    assert_eq!(Type::MessageNodeUnregister.value(), 97);
    assert_eq!(Type::SchedulerNodeRegister.value(), 98);
    assert_eq!(Type::from_value(33), Type::Other(33));
    assert_eq!(Type::from_value(97), Type::MessageNodeUnregister);
    for v in 0..=u16::MAX {
        assert_eq!(Type::from_value(v).value(), v);
    }
}

#[test]
fn type_space_is_partitioned() {
    assert_eq!(category(0), Category::Control);
    assert_eq!(category(15), Category::Control);
    assert_eq!(category(16), Category::Signalling);
    assert_eq!(category(31), Category::Signalling);
    assert_eq!(category(32), Category::Text);
    assert_eq!(category(63), Category::Text);
    assert_eq!(category(64), Category::Business);
    assert_eq!(category(95), Category::Business);
    assert_eq!(category(96), Category::Internal);
    assert_eq!(category(127), Category::Internal);
    assert_eq!(category(128), Category::Unassigned);
}

#[test]
fn ack_echoes_the_parties_and_carries_the_client_timestamp() {
    let m = sample();
    let ack = m.generate_ack(5, 424242);
    assert_eq!(ack.typ(), Type::Ack);
    assert_eq!(ack.sender, 10);
    assert_eq!(ack.receiver, 11);
    assert_eq!(ack.node_id, 5);
    assert_eq!(ack.timestamp, 424242);
    assert_eq!(ack.seqnum, 7);
    assert!(ack.payload.is_empty());
}

#[test]
fn auth_carries_the_token() {
    let m = Msg::auth(7, 0, 1, "ok".to_string());
    assert_eq!(m.typ(), Type::Auth);
    assert_eq!(m.sender, 7);
    assert_eq!(m.receiver, 0);
    assert_eq!(m.node_id, 1);
    assert_eq!(m.payload, b"ok".to_vec());
    assert_eq!(m.version, 1);
}

#[test]
fn key_is_symmetric() {
    assert_eq!(key(10, 11), key(11, 10));
    assert_eq!(key(10, 11), (10u128 << 64) | 11);
    assert_eq!(key(u64::MAX, 0), u64::MAX as u128);
    assert_eq!(key(5, 5), (5u128 << 64) | 5);
}
