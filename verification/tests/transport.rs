use prim::client::{
    admitted, Client, ClientMultiConnection, ClientSubConnectionConfig, ClientTimeout, Connect,
    Phase, TransportError,
};
use prim::config::{ClientConfig, ClientConfigBuilder, ConfigError, Field, PeerAddr, MAX_STREAMS};
use prim::msg::Type;
use prim::pump::{step, Action, Event, PumpState, Turn};
use prim::queue::{FrameQueue, RecvError, SendError};
use prim::msg::{FrameError, Msg};

fn addr(last: u8, port: u16) -> PeerAddr {
    PeerAddr { v6: false, ip: 0x7f00_0000 + last as u128, port }
}

fn full_builder() -> ClientConfigBuilder {
    let mut b = ClientConfigBuilder::default();
    b.with_remote_address(addr(1, 8190))
        .with_domain("localhost".to_string())
        .with_cert(vec![0x30, 0x82])
        .with_keep_alive_interval(3000)
        .with_max_bi_streams(8)
        .with_max_uni_streams(4)
        .with_max_sender_side_channel_size(64)
        .with_max_receiver_side_channel_size(32);
    b
}

fn config() -> ClientConfig {
    full_builder().build().unwrap()
}

#[test]
fn build_hands_out_what_was_set() {
    let c = config();
    assert_eq!(c.remote_address, addr(1, 8190));
    assert_eq!(c.domain, "localhost");
    assert_eq!(c.cert, vec![0x30, 0x82]);
    assert_eq!(c.keep_alive_interval, 3000);
    assert_eq!(c.max_bi_streams, 8);
    assert_eq!(c.max_uni_streams, 4);
    assert_eq!(c.max_sender_side_channel_size, 64);
    assert_eq!(c.max_receiver_side_channel_size, 32);
}

#[test]
fn build_names_the_first_missing_field() {
    assert_eq!(
        ClientConfigBuilder::new().build(),
        Err(ConfigError::Missing(Field::RemoteAddress))
    );
    let mut b = full_builder();
    b.domain = None;
    b.cert = None;
    assert_eq!(b.build(), Err(ConfigError::Missing(Field::Domain)));
    let mut b = full_builder();
    b.cert = None;
    assert_eq!(b.build(), Err(ConfigError::Missing(Field::Cert)));
    let mut b = full_builder();
    b.keep_alive_interval = None;
    assert_eq!(b.build(), Err(ConfigError::Missing(Field::KeepAliveInterval)));
    let mut b = full_builder();
    b.max_bi_streams = None;
    assert_eq!(b.build(), Err(ConfigError::Missing(Field::MaxBiStreams)));
    let mut b = full_builder();
    b.max_uni_streams = None;
    assert_eq!(b.build(), Err(ConfigError::Missing(Field::MaxUniStreams)));
    let mut b = full_builder();
    b.max_sender_side_channel_size = None;
    assert_eq!(b.build(), Err(ConfigError::Missing(Field::MaxSenderSideChannelSize)));
    let mut b = full_builder();
    b.max_receiver_side_channel_size = None;
    assert_eq!(b.build(), Err(ConfigError::Missing(Field::MaxReceiverSideChannelSize)));
}

#[test]
fn build_names_values_that_cannot_be_used() {
    let mut b = full_builder();
    b.with_max_bi_streams(MAX_STREAMS + 1);
    assert_eq!(b.build(), Err(ConfigError::Invalid(Field::MaxBiStreams)));
    let mut b = full_builder();
    b.with_max_bi_streams(MAX_STREAMS).with_max_uni_streams(u64::MAX);
    assert_eq!(b.build(), Err(ConfigError::Invalid(Field::MaxUniStreams)));
    let mut b = full_builder();
    b.with_max_sender_side_channel_size(0).with_max_receiver_side_channel_size(0);
    assert_eq!(b.build(), Err(ConfigError::Invalid(Field::MaxSenderSideChannelSize)));
    let mut b = full_builder();
    b.with_max_receiver_side_channel_size(0);
    assert_eq!(b.build(), Err(ConfigError::Invalid(Field::MaxReceiverSideChannelSize)));
    let mut b = full_builder();
    b.with_max_bi_streams(u64::MAX);
    b.max_uni_streams = None;
    assert_eq!(b.build(), Err(ConfigError::Missing(Field::MaxUniStreams)));
}

#[test]
fn second_connect_reuses_the_first_connection() {
    let mut c = Client::new(config());
    assert_eq!(c.current_phase(), Phase::Idle);
    assert_eq!(c.run(), Connect::Dial(config()));
    assert_eq!(c.current_phase(), Phase::Connecting);
    assert_eq!(c.run(), Connect::Reuse);
    assert_eq!(c.dialled(true), Ok(()));
    assert_eq!(c.current_phase(), Phase::Connected);
    assert_eq!(c.run(), Connect::Reuse);
    assert_eq!(c.current_phase(), Phase::Connected);
}

#[test]
fn failed_handshake_leaves_the_client_down() {
    let mut c = Client::new(config());
    assert_eq!(c.dialled(true), Err(TransportError::NotConnected));
    c.run();
    assert_eq!(c.dialled(false), Err(TransportError::Handshake));
    assert_eq!(c.current_phase(), Phase::Down);
    assert_eq!(c.run(), Connect::Refused);
    assert_eq!(c.new_net_streams(), Err(TransportError::NotConnected));
}

#[test]
fn streams_are_numbered_in_order() {
    let mut c = Client::new(config());
    assert_eq!(c.new_net_streams(), Err(TransportError::NotConnected));
    c.run();
    assert_eq!(c.new_net_streams(), Err(TransportError::NotConnected));
    c.dialled(true).unwrap();
    assert_eq!(c.new_net_streams(), Ok(0));
    assert_eq!(c.new_net_streams(), Ok(1));
    assert_eq!(c.new_net_streams(), Ok(2));
    let notice = c.close();
    assert_eq!(notice.code, 0);
    assert_eq!(c.new_net_streams(), Err(TransportError::NotConnected));
}

#[test]
fn queue_ends_are_handed_out_once() {
    let mut c = Client::new(config());
    c.run();
    c.dialled(true).unwrap();
    let (stream, auth) = c.rw_streams(7, 1, "ok".to_string()).unwrap();
    assert_eq!(stream, 0);
    assert_eq!(auth.typ(), Type::Auth);
    assert_eq!(auth.sender, 7);
    assert_eq!(auth.receiver, 0);
    assert_eq!(auth.node_id, 1);
    assert_eq!(auth.payload, b"ok".to_vec());
    assert_eq!(c.rw_streams(7, 1, "ok".to_string()), Err(TransportError::ChannelTaken));
    assert_eq!(c.rw_streams_no_token(), Err(TransportError::ChannelTaken));
    assert_eq!(c.new_net_streams(), Ok(1));
    let mut d = Client::new(config());
    assert_eq!(d.rw_streams_no_token(), Err(TransportError::NotConnected));
    d.run();
    d.dialled(true).unwrap();
    assert_eq!(d.rw_streams_no_token(), Ok(0));
}

#[test]
fn no_answer_to_auth_means_refused() {
    assert_eq!(admitted(true), Ok(()));
    assert_eq!(admitted(false), Err(TransportError::AuthFailed));
}

#[test]
fn client_with_deadline_behaves_like_a_client() {
    let mut c = ClientTimeout::new(config(), 3000);
    assert_eq!(c.timeout(), 3000);
    assert_eq!(c.new_net_streams(), Err(TransportError::NotConnected));
    assert_eq!(c.run(), Connect::Dial(config()));
    assert_eq!(c.run(), Connect::Reuse);
    assert_eq!(c.dialled(true), Ok(()));
    assert_eq!(c.new_net_streams(), Ok(0));
    let (stream, auth) = c.rw_streams(9, 2, "t".to_string()).unwrap();
    assert_eq!(stream, 1);
    assert_eq!(auth.sender, 9);
    assert_eq!(c.rw_streams(9, 2, "t".to_string()), Err(TransportError::ChannelTaken));
}

#[test]
fn one_connection_per_peer_and_a_third_party_connects_too() {
    let mut m = ClientMultiConnection::new(config());
    let to_a = ClientSubConnectionConfig {
        remote_address: addr(1, 8190),
        domain: "a".to_string(),
        opened_bi_streams_number: 3,
        opened_uni_streams_number: 0,
    };
    let to_b = ClientSubConnectionConfig {
        remote_address: addr(2, 8190),
        domain: "b".to_string(),
        opened_bi_streams_number: 1,
        opened_uni_streams_number: 0,
    };
    let first = m.new_connection(&to_a);
    assert!(!first.reused);
    assert_eq!(first.connection, 0);
    assert_eq!(first.streams, 3);
    let second = m.new_connection(&to_a);
    assert!(second.reused);
    assert_eq!(second.connection, 0);
    assert_eq!(m.connections(), 1);
    let third = m.new_connection(&to_b);
    assert!(!third.reused);
    assert_eq!(third.connection, 1);
    assert_eq!(m.connections(), 2);
    assert_eq!(m.find(addr(2, 8190)), Some(1));
    assert_eq!(m.find(addr(2, 8191)), None);
}

#[test]
fn operation_channel_is_handed_out_once() {
    let mut m = ClientMultiConnection::new(config());
    let mut c = m.new_connection(&ClientSubConnectionConfig {
        remote_address: addr(1, 1),
        domain: "a".to_string(),
        opened_bi_streams_number: 1,
        opened_uni_streams_number: 0,
    });
    assert_eq!(c.operation_channel(), Ok(0));
    assert_eq!(c.operation_channel(), Err(TransportError::ChannelTaken));
}

#[test]
fn pump_follows_its_state_machine() {
    let open = PumpState::Open;
    assert_eq!(step(open, Event::FrameRead), Turn { state: open, action: Action::ForwardInbound });
    assert_eq!(step(open, Event::OutboundReady), Turn { state: open, action: Action::Write });
    assert_eq!(step(open, Event::Expired), Turn { state: open, action: Action::ForwardExpired });
    assert_eq!(step(open, Event::Written), Turn { state: open, action: Action::Wait });
    assert_eq!(step(open, Event::Forwarded), Turn { state: open, action: Action::Wait });
    for e in [
        Event::ReadFailed,
        Event::InboundClosed,
        Event::OutboundClosed,
        Event::WriteFailed,
        Event::TimeoutClosed,
    ] {
        assert_eq!(step(open, e), Turn { state: PumpState::Closing, action: Action::Drain });
    }
    let closing = PumpState::Closing;
    assert_eq!(step(closing, Event::OutboundReady), Turn { state: closing, action: Action::Write });
    assert_eq!(step(closing, Event::WriteFailed), Turn { state: closing, action: Action::Wait });
    assert_eq!(step(closing, Event::FrameRead), Turn { state: closing, action: Action::Wait });
    assert_eq!(
        step(closing, Event::Drained),
        Turn { state: PumpState::Closed, action: Action::Exit }
    );
    assert_eq!(
        step(PumpState::Closed, Event::FrameRead),
        Turn { state: PumpState::Closed, action: Action::Exit }
    );
}

#[test]
fn full_queue_refuses_until_one_frame_is_drained() {
    let k = 3usize;
    let mut q = FrameQueue::bounded(k).unwrap();
    for i in 0..k {
        assert_eq!(q.try_send(vec![i as u8]), Ok(()));
    }
    assert_eq!(q.try_send(vec![99]), Err(SendError::Full));
    assert_eq!(q.try_send(vec![99]), Err(SendError::Full));
    assert_eq!(q.try_recv(), Ok(vec![0]));
    assert_eq!(q.try_send(vec![99]), Ok(()));
    assert_eq!(q.try_send(vec![100]), Err(SendError::Full));
    assert_eq!(q.try_recv(), Ok(vec![1]));
    assert_eq!(q.try_recv(), Ok(vec![2]));
    assert_eq!(q.try_recv(), Ok(vec![99]));
    assert_eq!(q.try_recv(), Err(RecvError::Empty));
}

#[test]
fn queue_of_depth_one_and_of_depth_zero() {
    assert!(FrameQueue::bounded(0).is_none());
    let mut q = FrameQueue::bounded(1).unwrap();
    assert_eq!(q.try_recv(), Err(RecvError::Empty));
    assert_eq!(q.try_send(vec![1]), Ok(()));
    assert_eq!(q.try_send(vec![2]), Err(SendError::Full));
    assert_eq!(q.try_recv(), Ok(vec![1]));
    assert_eq!(q.try_send(vec![2]), Ok(()));
}

#[test]
fn closed_queue_drains_and_then_ends() {
    let mut q = FrameQueue::bounded(2).unwrap();
    q.try_send(vec![1]).unwrap();
    assert!(q.close());
    assert!(!q.close());
    assert_eq!(q.try_send(vec![2]), Err(SendError::QueueClosed));
    assert_eq!(q.try_recv(), Ok(vec![1]));
    assert_eq!(q.try_recv(), Err(RecvError::QueueClosed));
}

#[test]
fn queue_carries_messages() {
    let mut q = FrameQueue::bounded(2).unwrap();
    let m = Msg::auth(7, 0, 1, "ok".to_string());
    assert_eq!(q.send(&m), Ok(()));
    assert_eq!(q.recv(), Ok(Msg::auth(7, 0, 1, "ok".to_string())));
    let mut big = Msg::noop();
    big.payload = vec![0; 65536];
    assert_eq!(q.send(&big), Err(SendError::Frame(FrameError::PayloadTooLarge)));
    assert_eq!(q.recv(), Err(RecvError::Empty));
    q.try_send(vec![1, 2, 3]).unwrap();
    assert_eq!(q.recv(), Err(RecvError::Frame(FrameError::Truncated)));
}
