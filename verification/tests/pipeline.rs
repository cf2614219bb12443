use prim::handler::{
    accepts, dispatch, echo, route, run, Action, Context, Facts, Handler, HandlerError,
    InnerStates,
};
use prim::iotask::{io_task, IoTaskMsg};
use prim::key::key;
use prim::msg::{Msg, Type};
use prim::seqnum::Shard;
use prim::session::{
    broadcast_targets, close, error_ack, message_node_handlers, scheduler_handlers, serve_client,
    serve_peer, Served, Target,
};

const PLAIN: Facts = Facts { token_valid: true, receiver_is_group: false };

fn msg(typ: u16, sender: u64, receiver: u64, node_id: u32, payload: &[u8]) -> Msg {
    Msg {
        version: 1,
        typ,
        sender,
        receiver,
        timestamp: 1000 + sender,
        seqnum: 1,
        node_id,
        extension: Vec::new(),
        payload: payload.to_vec(),
    }
}

fn login(ctx: &mut Context, user: u64, handle: u64) -> InnerStates {
    let mut states = InnerStates::new(handle);
    let auth = Msg::auth(user, 0, ctx.my_id, "ok".to_string());
    let served = serve_client(&message_node_handlers(), &auth, ctx, &mut states, PLAIN);
    assert!(matches!(served, Served::Done(_)));
    states
}

#[test]
fn login_then_echo() {
    let mut ctx = Context::new(1);
    let hs = message_node_handlers();
    let mut states = InnerStates::new(70);
    let mut auth = Msg::auth(7, 0, 1, "ok".to_string());
    auth.timestamp = 555;
    match serve_client(&hs, &auth, &mut ctx, &mut states, PLAIN) {
        Served::Done(o) => {
            assert_eq!(o.reply.typ(), Type::Ack);
            assert_eq!(o.reply.sender, 7);
            assert_eq!(o.reply.node_id, 1);
            assert_eq!(o.reply.timestamp, 555);
            assert!(o.actions.is_empty());
            assert_eq!(o.relay, None);
        }
        other => panic!("{:?}", other),
    }
    assert_eq!(states.user, Some(7));
    assert_eq!(ctx.sessions.get(7), Some(70));
    let ping = msg(6, 7, 0, 1, b"hi");
    match serve_client(&hs, &ping, &mut ctx, &mut states, PLAIN) {
        Served::Done(o) => {
            assert_eq!(o.reply.typ(), Type::Echo);
            assert_eq!(o.reply.payload, b"hi".to_vec());
            assert_eq!(o.reply.seqnum, 1);
            assert_eq!(o.reply.sender, 0);
            assert_eq!(o.reply.receiver, 7);
            assert_eq!(o.reply.node_id, 1);
        }
        other => panic!("{:?}", other),
    }
}

#[test]
fn local_delivery_advances_the_conversation_by_one() {
    let mut ctx = Context::new(1);
    let hs = message_node_handlers();
    let mut ten = login(&mut ctx, 10, 100);
    let _eleven = login(&mut ctx, 11, 110);
    let text = msg(32, 10, 11, 1, b"yo");
    let outcome = match serve_client(&hs, &text, &mut ctx, &mut ten, PLAIN) {
        Served::Done(o) => o,
        other => panic!("{:?}", other),
    };
    assert_eq!(outcome.actions, vec![Action::Deliver(110), Action::Persist]);
    assert_eq!(outcome.relay, Some(msg(32, 10, 11, 1, b"yo")));
    assert_eq!(outcome.reply, text.generate_ack(1, text.timestamp));
    let mut shard = Shard::new();
    let before = shard.current(key(10, 11));
    let persisted = io_task(&mut shard, IoTaskMsg::Direct(outcome.relay.unwrap())).unwrap();
    assert_eq!(shard.current(key(10, 11)), before + 1);
    assert_eq!(persisted.msg.seqnum, 1);
    assert_eq!(persisted.msg.payload, b"yo".to_vec());
    assert_eq!(persisted.record.unwrap().key, key(11, 10));
}

#[test]
fn cross_node_delivery() {
    let hs = message_node_handlers();
    let mut node1 = Context::new(1);
    node1.cluster.insert(2, 900);
    let mut twenty = login(&mut node1, 20, 200);
    let mut node2 = Context::new(2);
    let _twentyone = login(&mut node2, 21, 210);
    let text = msg(32, 20, 21, 2, b"over");
    let at1 = match serve_client(&hs, &text, &mut node1, &mut twenty, PLAIN) {
        Served::Done(o) => o,
        other => panic!("{:?}", other),
    };
    assert_eq!(at1.actions, vec![Action::Forward(900)]);
    assert_eq!(at1.reply.typ(), Type::Ack);
    assert_eq!(at1.reply.node_id, 1);
    assert_eq!(at1.reply.sender, 20);
    assert_eq!(at1.reply.receiver, 21);
    let relayed = at1.relay.unwrap();
    let mut cluster_stream = InnerStates::new(1);
    let at2 = match serve_peer(&hs, &relayed, &mut node2, &mut cluster_stream, PLAIN) {
        Served::Done(o) => o,
        other => panic!("{:?}", other),
    };
    assert_eq!(at2.actions, vec![Action::Deliver(210), Action::Persist]);
    assert_eq!(at2.relay, Some(msg(32, 20, 21, 2, b"over")));
}

#[test]
fn peer_offline_is_acknowledged_locally_and_changes_nothing() {
    let hs = message_node_handlers();
    let mut ctx = Context::new(1);
    let mut thirty = login(&mut ctx, 30, 300);
    let text = msg(32, 30, 31, 3, b"anyone");
    let outcome = match serve_client(&hs, &text, &mut ctx, &mut thirty, PLAIN) {
        Served::Done(o) => o,
        other => panic!("{:?}", other),
    };
    assert_eq!(outcome.actions, vec![Action::PeerOffline(3)]);
    assert_eq!(outcome.reply.typ(), Type::Ack);
    assert_eq!(outcome.reply.node_id, 1);
    assert_eq!(ctx.sessions.ids(), vec![30]);
    assert!(ctx.cluster.ids().is_empty());
}

#[test]
fn second_auth_on_a_stream_closes_it() {
    let hs = message_node_handlers();
    let mut ctx = Context::new(1);
    let mut states = login(&mut ctx, 7, 70);
    let again = Msg::auth(7, 0, 1, "ok".to_string());
    let served = serve_client(&hs, &again, &mut ctx, &mut states, PLAIN);
    assert_eq!(served, Served::Closed(HandlerError::AuthFailed));
    assert_eq!(states.user, Some(7));
    assert_eq!(ctx.sessions.get(7), Some(70));
}

#[test]
fn refused_token_closes_the_stream_and_installs_nothing() {
    let hs = message_node_handlers();
    let mut ctx = Context::new(1);
    let mut states = InnerStates::new(70);
    let auth = Msg::auth(7, 0, 1, "bad".to_string());
    let facts = Facts { token_valid: false, receiver_is_group: false };
    let served = serve_client(&hs, &auth, &mut ctx, &mut states, facts);
    assert_eq!(served, Served::Closed(HandlerError::AuthFailed));
    assert_eq!(states.user, None);
    assert!(!ctx.sessions.contains(7));
}

#[test]
fn first_message_must_be_auth() {
    let hs = message_node_handlers();
    let mut ctx = Context::new(1);
    let mut states = InnerStates::new(70);
    let served = serve_client(&hs, &msg(6, 7, 0, 1, b"hi"), &mut ctx, &mut states, PLAIN);
    assert_eq!(served, Served::Closed(HandlerError::AuthFailed));
    assert_eq!(states, InnerStates::new(70));
}

#[test]
fn only_the_first_matching_handler_acts() {
    let mut ctx = Context::new(1);
    let mut states = InnerStates::new(70);
    states.client_timestamp = Some(5);
    let hs = vec![Handler::Auth, Handler::Text, Handler::Echo];
    let text = msg(40, 1, 2, 9, b"t");
    let got = dispatch(&hs, &text, &mut ctx, &mut states, PLAIN).unwrap();
    let mut ctx2 = Context::new(1);
    let mut states2 = InnerStates::new(70);
    states2.client_timestamp = Some(5);
    let alone = run(Handler::Text, &text, &mut ctx2, &mut states2, PLAIN).unwrap();
    assert_eq!(got, alone);
    assert_eq!(states, states2);
    assert!(ctx.sessions.ids().is_empty());
    assert_eq!(states.user, None);
}

#[test]
fn unclaimed_type_is_declined_and_ignored() {
    let hs = message_node_handlers();
    let mut ctx = Context::new(1);
    let mut states = login(&mut ctx, 7, 70);
    let odd = msg(20, 7, 8, 1, b"");
    let mut copy = states;
    assert_eq!(
        dispatch(&hs, &odd, &mut ctx, &mut copy, PLAIN),
        Err(HandlerError::NotMine)
    );
    assert_eq!(serve_client(&hs, &odd, &mut ctx, &mut states, PLAIN), Served::Ignored);
    assert_eq!(run(Handler::Echo, &odd, &mut ctx, &mut states, PLAIN), Err(HandlerError::NotMine));
}

#[test]
fn handler_failure_becomes_an_error_envelope() {
    let mut ctx = Context::new(4);
    let mut states = InnerStates::new(70);
    let text = msg(32, 1, 2, 4, b"t");
    assert_eq!(
        run(Handler::Text, &text, &mut ctx, &mut states, PLAIN),
        Err(HandlerError::NoClientTimestamp)
    );
    assert_eq!(
        run(Handler::Business, &msg(64, 1, 2, 4, b""), &mut ctx, &mut states, PLAIN),
        Err(HandlerError::NoClientTimestamp)
    );
    let ack = error_ack(&text, 4, HandlerError::NoClientTimestamp);
    assert_eq!(ack.typ(), Type::Error);
    assert_eq!(ack.sender, 1);
    assert_eq!(ack.receiver, 2);
    assert_eq!(ack.node_id, 4);
    assert_eq!(ack.payload, vec![2]);
    assert_eq!(error_ack(&text, 4, HandlerError::AuthFailed).payload, vec![1]);
}

#[test]
fn ack_carries_the_timestamp_of_the_message() {
    let hs = message_node_handlers();
    let mut ctx = Context::new(1);
    let mut states = login(&mut ctx, 10, 100);
    for typ in [32u16, 63, 64, 65, 66, 67, 68, 69, 70, 95] {
        let mut m = msg(typ, 10, 11, 1, b"x");
        m.timestamp = 7_000 + typ as u64;
        match serve_client(&hs, &m, &mut ctx, &mut states, PLAIN) {
            Served::Done(o) => {
                assert_eq!(o.reply.typ(), Type::Ack);
                assert_eq!(o.reply.timestamp, 7_000 + typ as u64);
                assert_eq!(o.reply.sender, 10);
                assert_eq!(o.reply.receiver, 11);
                assert_eq!(o.reply.node_id, 1);
            }
            other => panic!("{:?}", other),
        }
    }
}

#[test]
fn remote_invoke_is_acknowledged_and_goes_nowhere() {
    let hs = message_node_handlers();
    let mut ctx = Context::new(1);
    let mut states = login(&mut ctx, 10, 100);
    match serve_client(&hs, &msg(69, 10, 11, 1, b"call"), &mut ctx, &mut states, PLAIN) {
        Served::Done(o) => {
            assert!(o.actions.is_empty());
            assert_eq!(o.relay, None);
            assert_eq!(o.reply.typ(), Type::Ack);
        }
        other => panic!("{:?}", other),
    }
}

#[test]
fn routing_cases() {
    let mut ctx = Context::new(1);
    ctx.sessions.insert(11, 110);
    ctx.cluster.insert(2, 900);
    let local = msg(32, 10, 11, 1, b"");
    assert_eq!(route(&local, &ctx, false), vec![Action::Deliver(110), Action::Persist]);
    assert_eq!(route(&local, &ctx, true), vec![Action::Fanout]);
    let miss = msg(32, 10, 12, 1, b"");
    assert_eq!(route(&miss, &ctx, false), vec![Action::Missed(12), Action::Persist]);
    let remote = msg(32, 10, 11, 2, b"");
    assert_eq!(route(&remote, &ctx, false), vec![Action::Forward(900)]);
    let lost = msg(32, 10, 11, 3, b"");
    assert_eq!(route(&lost, &ctx, false), vec![Action::PeerOffline(3)]);
}

#[test]
fn handlers_key_off_their_ranges() {
    assert!(accepts(Handler::Auth, 1));
    assert!(!accepts(Handler::Auth, 2));
    assert!(accepts(Handler::Echo, 6));
    assert!(!accepts(Handler::Text, 31));
    assert!(accepts(Handler::Text, 32));
    assert!(accepts(Handler::Text, 63));
    assert!(!accepts(Handler::Text, 64));
    assert!(accepts(Handler::Business, 64));
    assert!(accepts(Handler::Business, 95));
    assert!(!accepts(Handler::Business, 96));
    assert!(accepts(Handler::NodeRegister, 96));
    assert!(accepts(Handler::NodeUnregister, 97));
    assert_eq!(
        message_node_handlers(),
        vec![Handler::Auth, Handler::Echo, Handler::Text, Handler::Business]
    );
    assert_eq!(scheduler_handlers(), vec![Handler::NodeRegister, Handler::NodeUnregister]);
}

#[test]
fn echo_swaps_the_parties() {
    let m = msg(6, 3, 4, 9, b"hello");
    let r = echo(&m, 1);
    assert_eq!(r.sender, 4);
    assert_eq!(r.receiver, 3);
    assert_eq!(r.node_id, 1);
    assert_eq!(r.payload, b"hello".to_vec());
    assert_eq!(r.timestamp, m.timestamp);
}

#[test]
fn node_registration_is_told_to_every_node() {
    let hs = scheduler_handlers();
    let mut ctx = Context::new(50);
    ctx.cluster.insert(1, 11);
    ctx.cluster.insert(2, 22);
    ctx.cluster.insert(3, 33);
    let mut states = InnerStates::new(5);
    let reg = msg(96, 3, 0, 50, b"info");
    let o = match serve_peer(&hs, &reg, &mut ctx, &mut states, PLAIN) {
        Served::Done(o) => o,
        other => panic!("{:?}", other),
    };
    assert_eq!(o.actions, vec![Action::Broadcast(None)]);
    let notice = o.relay.unwrap();
    assert_eq!(notice.typ(), Type::MessageNodeRegister);
    assert_eq!(notice.sender, 3);
    assert_eq!(notice.payload, b"info".to_vec());
    assert_eq!(notice.extension, b"true".to_vec());
    assert_eq!(o.reply.typ(), Type::Ack);
    assert_eq!(o.reply.node_id, 50);
    let mut all = broadcast_targets(&ctx.cluster, None);
    all.sort_by_key(|t| t.id);
    assert_eq!(
        all,
        vec![
            Target { id: 1, handle: 11 },
            Target { id: 2, handle: 22 },
            Target { id: 3, handle: 33 }
        ]
    );
}

#[test]
fn node_leaving_is_told_to_every_other_node() {
    let hs = scheduler_handlers();
    let mut ctx = Context::new(50);
    ctx.cluster.insert(1, 11);
    ctx.cluster.insert(2, 22);
    ctx.cluster.insert(3, 33);
    let mut states = InnerStates::new(5);
    let gone = msg(97, 2, 0, 50, b"bye");
    let o = match serve_peer(&hs, &gone, &mut ctx, &mut states, PLAIN) {
        Served::Done(o) => o,
        other => panic!("{:?}", other),
    };
    assert_eq!(o.actions, vec![Action::Broadcast(Some(2))]);
    assert_eq!(o.relay, Some(msg(97, 2, 0, 50, b"bye")));
    assert_eq!(o.reply.typ(), Type::Noop);
    let mut others = broadcast_targets(&ctx.cluster, Some(2));
    others.sort_by_key(|t| t.id);
    assert_eq!(others, vec![Target { id: 1, handle: 11 }, Target { id: 3, handle: 33 }]);
}

#[test]
fn closing_a_stream_removes_its_session_only() {
    let mut ctx = Context::new(1);
    let mut old_stream = login(&mut ctx, 7, 70);
    let mut other = login(&mut ctx, 8, 80);
    let mut taken_over = login(&mut ctx, 7, 71);
    assert_eq!(ctx.sessions.get(7), Some(71));
    close(&mut ctx, &mut old_stream);
    assert_eq!(ctx.sessions.get(7), Some(71));
    assert_eq!(old_stream, InnerStates::new(70));
    close(&mut ctx, &mut taken_over);
    assert_eq!(ctx.sessions.get(7), None);
    assert_eq!(ctx.sessions.get(8), Some(80));
    close(&mut ctx, &mut other);
    assert!(ctx.sessions.ids().is_empty());
}

#[test]
fn io_task_passes_group_messages_unstamped() {
    let mut shard = Shard::new();
    let m = msg(32, 1, 2, 1, b"g");
    let p = io_task(&mut shard, IoTaskMsg::Broadcast(msg(32, 1, 2, 1, b"g"))).unwrap();
    assert_eq!(p.msg, m);
    assert_eq!(p.record, None);
    assert_eq!(shard.current(key(1, 2)), 0);
    shard.journal_written(false);
    assert!(io_task(&mut shard, IoTaskMsg::Direct(m)).is_err());
}
