use prim::config::PeerAddr;
use prim::handler::{Context, Facts, HandlerError, InnerStates};
use prim::msg::{Msg, Type};
use prim::scheduler::{
    addr_less, contains_addr, plan_dials, register_msg, replica_admits, should_dial,
    sort_addresses, unregister_msg,
};
use prim::server::{read_body, read_head, Conn, ReadError, Server, ServerError};
use prim::session::Served;

const PLAIN: Facts = Facts { token_valid: true, receiver_is_group: false };

fn v4(last: u8, port: u16) -> PeerAddr {
    PeerAddr { v6: false, ip: 0x0a00_0000 + last as u128, port }
}

fn v6(last: u8, port: u16) -> PeerAddr {
    PeerAddr { v6: true, ip: last as u128, port }
}

#[test]
fn addresses_order_by_family_then_address_then_port() {
    assert!(addr_less(&v4(9, 9), &v6(1, 1)));
    assert!(!addr_less(&v6(1, 1), &v4(9, 9)));
    assert!(addr_less(&v4(1, 9), &v4(2, 1)));
    assert!(addr_less(&v4(1, 1), &v4(1, 2)));
    assert!(!addr_less(&v4(1, 1), &v4(1, 1)));
}

#[test]
fn sorting_keeps_every_address() {
    let input = vec![v4(3, 1), v6(1, 1), v4(1, 2), v4(3, 1), v4(1, 1)];
    assert_eq!(
        sort_addresses(&input),
        vec![v4(1, 1), v4(1, 2), v4(3, 1), v4(3, 1), v6(1, 1)]
    );
    assert_eq!(sort_addresses(&Vec::new()), Vec::new());
}

#[test]
fn replica_dials_half_of_the_others_in_ring_order() {
    let addrs = vec![v4(5, 1), v4(1, 1), v4(4, 1), v4(2, 1), v4(3, 1)];
    let none: Vec<PeerAddr> = Vec::new();
    assert_eq!(plan_dials(&addrs, &v4(1, 1), &none), vec![v4(2, 1), v4(3, 1)]);
    assert_eq!(plan_dials(&addrs, &v4(4, 1), &none), vec![v4(5, 1), v4(1, 1)]);
    assert_eq!(plan_dials(&addrs, &v4(5, 1), &none), vec![v4(1, 1), v4(2, 1)]);
}

#[test]
fn ring_joins_every_pair_of_an_odd_cluster_once() {
    let addrs: Vec<PeerAddr> = (1..=7u8).map(|i| v4(i, 1)).collect();
    let none: Vec<PeerAddr> = Vec::new();
    let mut links = 0;
    for a in &addrs {
        let plan = plan_dials(&addrs, a, &none);
        assert_eq!(plan.len(), 3);
        for b in &plan {
            assert!(!contains_addr(&plan_dials(&addrs, b, &none), a));
            links += 1;
        }
    }
    assert_eq!(links, 7 * 6 / 2);
}

#[test]
fn plan_skips_connected_replicas_and_small_clusters_dial_nobody() {
    let addrs = vec![v4(1, 1), v4(2, 1), v4(3, 1), v4(4, 1), v4(5, 1)];
    assert_eq!(plan_dials(&addrs, &v4(1, 1), &vec![v4(2, 1)]), vec![v4(3, 1)]);
    let none: Vec<PeerAddr> = Vec::new();
    assert_eq!(plan_dials(&Vec::new(), &v4(1, 1), &none), Vec::new());
    assert_eq!(plan_dials(&vec![v4(1, 1)], &v4(1, 1), &none), Vec::new());
    assert_eq!(plan_dials(&vec![v4(1, 1), v4(2, 1)], &v4(1, 1), &none), Vec::new());
    assert_eq!(plan_dials(&vec![v4(1, 1), v4(2, 1), v4(3, 1)], &v4(3, 1), &none), vec![v4(1, 1)]);
    assert_eq!(plan_dials(&vec![v4(1, 1), v4(2, 1), v4(3, 1)], &v4(9, 9), &none), vec![v4(1, 1)]);
}

#[test]
fn plan_names_a_duplicate_address_once() {
    let addrs = vec![v4(1, 1), v4(2, 1), v4(2, 1), v4(3, 1), v4(4, 1)];
    let none: Vec<PeerAddr> = Vec::new();
    assert_eq!(plan_dials(&addrs, &v4(1, 1), &none), vec![v4(2, 1)]);
}

#[test]
fn lower_node_id_dials() {
    assert!(should_dial(1, 2));
    assert!(!should_dial(2, 1));
    assert!(!should_dial(2, 2));
}

#[test]
fn server_refuses_a_second_connection_of_a_peer() {
    let mut ctx = Context::new(1);
    let mut s = Server::new("127.0.0.1:8190".to_string(), 2, 10_000);
    assert_eq!(s.accept(&mut ctx, v4(1, 1), 0), Ok(()));
    assert_eq!(s.accept(&mut ctx, v4(1, 1), 5), Err(ServerError::DuplicatePeer));
    assert_eq!(s.accept(&mut ctx, v4(2, 1), 5), Ok(()));
    assert_eq!(s.connections(), 2);
    assert_eq!(s.accept(&mut ctx, v4(3, 1), 6), Err(ServerError::TooManyConnections));
    assert_eq!(s.accept(&mut ctx, v4(2, 1), 6), Err(ServerError::DuplicatePeer));
    assert_eq!(s.find_peer(v4(2, 1)), Some(1));
    assert_eq!(s.find_peer(v4(3, 1)), None);
}

#[test]
fn idle_connection_is_closed_and_its_sessions_are_gone_before_the_next_accept() {
    let mut ctx = Context::new(1);
    let mut s = Server::new("127.0.0.1:8190".to_string(), 8, 1_000);
    s.accept(&mut ctx, v4(1, 1), 0).unwrap();
    s.accept(&mut ctx, v4(2, 1), 0).unwrap();
    s.open_stream(v4(1, 1), 10).unwrap();
    s.open_stream(v4(1, 1), 11).unwrap();
    s.open_stream(v4(2, 1), 20).unwrap();
    for (handle, user) in [(10u64, 100u64), (11, 101), (20, 200)] {
        let auth = Msg::auth(user, 0, 1, "ok".to_string());
        assert!(matches!(s.serve(&mut ctx, handle, &auth, PLAIN, 0), Ok(Served::Done(_))));
    }
    assert_eq!(ctx.sessions.get(100), Some(10));
    let ping = Msg { typ: 6, sender: 200, ..Msg::noop() };
    assert!(matches!(s.serve(&mut ctx, 20, &ping, PLAIN, 600), Ok(Served::Done(_))));
    assert!(!s.is_doomed(v4(1, 1), 999));
    assert!(s.is_doomed(v4(1, 1), 1_000));
    assert!(!s.is_doomed(v4(2, 1), 1_000));
    assert_eq!(s.accept(&mut ctx, v4(3, 1), 1_000), Ok(()));
    assert_eq!(s.find_peer(v4(1, 1)), None);
    assert_eq!(s.connections(), 2);
    assert_eq!(s.open_streams(), 1);
    assert_eq!(ctx.sessions.get(100), None);
    assert_eq!(ctx.sessions.get(101), None);
    assert_eq!(ctx.sessions.get(200), Some(20));
    assert_eq!(s.accept(&mut ctx, v4(1, 1), 1_001), Ok(()));
}

#[test]
fn reap_counts_what_it_closes() {
    let mut ctx = Context::new(1);
    let mut s = Server::new("a".to_string(), 8, 100);
    s.accept(&mut ctx, v4(1, 1), 0).unwrap();
    s.accept(&mut ctx, v4(2, 1), 50).unwrap();
    assert_eq!(s.reap(&mut ctx, 99), 0);
    assert_eq!(s.reap(&mut ctx, 100), 1);
    assert!(s.touch(v4(2, 1), 140));
    assert!(!s.touch(v4(1, 1), 140));
    assert_eq!(s.reap(&mut ctx, 200), 0);
    assert_eq!(s.reap(&mut ctx, 240), 1);
    assert_eq!(s.connections(), 0);
}

#[test]
fn streams_need_a_connection_and_a_queue_of_their_own() {
    let mut ctx = Context::new(1);
    let mut s = Server::new("a".to_string(), 8, 100);
    assert_eq!(s.open_stream(v4(1, 1), 10), Err(ServerError::UnknownPeer));
    s.accept(&mut ctx, v4(1, 1), 0).unwrap();
    assert_eq!(s.open_stream(v4(1, 1), 10), Ok(()));
    assert_eq!(s.open_stream(v4(1, 1), 10), Err(ServerError::DuplicateStream));
    assert_eq!(s.find_stream(10), Some(0));
    assert_eq!(s.find_stream(11), None);
    let m = Msg::noop();
    assert_eq!(s.serve(&mut ctx, 11, &m, PLAIN, 1), Err(ServerError::UnknownStream));
}

#[test]
fn stream_that_fails_to_authenticate_is_closed_by_the_server() {
    let mut ctx = Context::new(1);
    let mut s = Server::new("a".to_string(), 8, 100);
    s.accept(&mut ctx, v4(1, 1), 0).unwrap();
    s.open_stream(v4(1, 1), 10).unwrap();
    let not_auth = Msg { typ: 32, ..Msg::noop() };
    assert_eq!(
        s.serve(&mut ctx, 10, &not_auth, PLAIN, 1),
        Ok(Served::Closed(HandlerError::AuthFailed))
    );
    assert_eq!(s.open_streams(), 0);
    s.open_stream(v4(1, 1), 10).unwrap();
    let auth = Msg::auth(5, 0, 1, "ok".to_string());
    assert!(matches!(s.serve(&mut ctx, 10, &auth, PLAIN, 2), Ok(Served::Done(_))));
    assert_eq!(ctx.sessions.get(5), Some(10));
    assert_eq!(
        s.serve(&mut ctx, 10, &auth, PLAIN, 3),
        Ok(Served::Closed(HandlerError::AuthFailed))
    );
    assert_eq!(ctx.sessions.get(5), None);
    assert_eq!(s.open_streams(), 0);
    let _ = InnerStates::new(0);
    let _ = Conn { peer: v4(1, 1), last_frame_ms: 0 };
}

#[test]
fn reading_a_message_in_two_steps() {
    let m = Msg {
        timestamp: 77,
        typ: 32,
        sender: 1,
        receiver: 2,
        extension: vec![1],
        payload: b"abc".to_vec(),
        ..Msg::noop()
    };
    let bytes = m.encode().unwrap();
    let mut head_buf = [0u8; 44];
    head_buf.copy_from_slice(&bytes[..44]);
    let got = read_head(44, &head_buf, 9_000).unwrap();
    assert_eq!(got.client_timestamp, 77);
    assert_eq!(got.head.timestamp, 9_000);
    assert_eq!(got.head.body_len(), 4);
    let mut body_buf = vec![0u8; 1 << 16];
    body_buf[..4].copy_from_slice(&bytes[44..]);
    let read = read_body(&got.head, 4, &body_buf).unwrap();
    assert_eq!(read.payload, b"abc".to_vec());
    assert_eq!(read.extension, vec![1]);
    assert_eq!(read.timestamp, 9_000);
    assert_eq!(read.typ(), Type::Text);
    assert_eq!(read_head(0, &head_buf, 1), Err(ReadError::ConnectionClosed));
    assert_eq!(read_head(43, &head_buf, 1), Err(ReadError::HeadError));
    head_buf[1] = 9;
    assert_eq!(read_head(44, &head_buf, 1), Err(ReadError::HeadError));
    assert_eq!(read_body(&got.head, 3, &body_buf).unwrap_err(), ReadError::BodyError);
    assert_eq!(read_body(&got.head, 4, &body_buf[..3]).unwrap_err(), ReadError::BodyError);
}

#[test]
fn node_announces_itself_and_takes_its_leave() {
    let hello = register_msg(4, b"node-4");
    assert_eq!(hello.typ(), Type::MessageNodeRegister);
    assert_eq!(hello.sender, 4);
    assert_eq!(hello.node_id, 4);
    assert_eq!(hello.payload, b"node-4".to_vec());
    assert!(hello.extension.is_empty());
    let bye = unregister_msg(4);
    assert_eq!(bye.typ(), Type::MessageNodeUnregister);
    assert_eq!(bye.sender, 4);
    assert!(bye.payload.is_empty());
}

#[test]
fn replica_admits_with_an_auth_answer_only() {
    let yes = Msg::auth(1, 0, 1, String::new());
    assert!(replica_admits(Some(&yes)));
    assert!(!replica_admits(Some(&Msg::noop())));
    assert!(!replica_admits(None));
}
