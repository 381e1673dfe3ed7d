use sirpent::engine::spectators::Spectators;
use futures::sync::{mpsc, oneshot};
use futures::{Future, Sink, Stream};
use sirpent::client_future::{Receive, ReceiveError, TimedReceive};
use sirpent::net::clients_receive::ClientsReceive;
use sirpent::net::clients_receive_timed::ClientsTimedReceive;
use sirpent::net::clients_send::ClientsSend;
use sirpent::net::comms::relay::{ClientRelay, ClientRelayRx, CommandOutcome, RelayError};
use sirpent::net::comms::{
    command_status, new, receive_outcome, sort_receipts, status_outcome, Client, ClientStatus, ClientTimeout,
    Command, Room,
};
use sirpent::net::pending::PollOutcome;
use sirpent::net::MsgCodec;
use sirpent::collect_results::{CollectPoll, StreamEvent};

#[derive(Clone, Debug, PartialEq)]
enum TinyMsg {
    A,
    B(String),
}

fn mock_client() -> Client<TinyMsg, TinyMsg> {
    let (tx, _rx) = mpsc::channel(1);
    Client::new(None, tx)
}

#[test]
fn can_join_room() {
    let client0 = mock_client();
    let client1 = mock_client();

    // Adding of a `Client` to a `Room` returns `true`.
    let mut room = Room::default();
    assert_eq!(room.client_ids().len(), 0);
    assert!(client0.clone().join(&mut room));
    assert_eq!(room.client_ids(), vec![client0.id()]);

    // Adding a `Client` whose ID was already present returns `false` and doesn't
    // add a duplicate.
    let client0_id = client0.id();
    assert!(!client0.join(&mut room));
    assert_eq!(room.client_ids(), vec![client0_id]);

    // Adding a different-IDed `Client` to a `Room` works.
    let client1_id = client1.id();
    assert!(client1.join(&mut room));
    // Extended comparison necessary because ordering not preserved.
    let client_ids = room.client_ids();
    assert!(client_ids.len() == 2);
    assert!(client_ids.contains(&client0_id));
    assert!(client_ids.contains(&client1_id));
    assert!(room.contains(&client1_id));
}

#[test]
fn client_keeps_its_name() {
    let (tx, _rx) = mpsc::channel::<Command<TinyMsg, TinyMsg>>(1);
    let client = Client::new(Some("127.0.0.1:1".to_string()), tx);
    assert_eq!(client.name(), Some("127.0.0.1:1".to_string()));
    assert_eq!(mock_client().name(), None);
}

#[test]
fn comms_collector_starts_empty() {
    let mut c = new::<u8, u8>();
    match c.poll_step(StreamEvent::End) {
        CollectPoll::Ready(v) => assert!(v.is_empty()),
        _ => panic!("the stream ended"),
    }
}

#[test]
fn relay_checks_ids_and_limits() {
    let other = mock_client().id();
    let (mut relay, _cmd_tx) = ClientRelay::<(), (), TinyMsg, TinyMsg>::new(
        mock_client().id(),
        None,
        Some(1),
        (),
        (),
    );
    let me = mock_client();
    let (mut relay2, _cmd_tx2) = ClientRelay::<(), (), TinyMsg, TinyMsg>::new(me.id(), None, Some(1), (), ());
    assert!(matches!(relay2.apply_command::<(), ()>(Command::Transmit(other, TinyMsg::A)), Err(RelayError::IncorrectClientIdInCommand)));
    assert!(matches!(relay2.apply_command::<(), ()>(Command::Transmit(me.id(), TinyMsg::A)), Ok(CommandOutcome::Continue)));
    match relay2.apply_command::<(), ()>(Command::Transmit(me.id(), TinyMsg::B("x".to_string()))) {
        Err(RelayError::QueueLimitExceeded(s)) => assert_eq!(s, "tx_relay.buffer"),
        _ => panic!("the send queue is full"),
    }
    assert_eq!(relay2.tx_relay.next_to_send(), Some(TinyMsg::A));
    assert_eq!(relay2.tx_relay.next_to_send(), None);
    let (stx, srx) = oneshot::channel();
    assert!(matches!(relay2.apply_command::<(), ()>(Command::StatusInto(me.id(), stx)), Ok(CommandOutcome::Continue)));
    let (stx2, _srx2) = oneshot::channel();
    match relay2.apply_command::<(), ()>(Command::StatusInto(me.id(), stx2)) {
        Err(RelayError::QueueLimitExceeded(s)) => assert_eq!(s, "status_txs"),
        _ => panic!("the status queue is full"),
    }
    let live = relay2.rx_relay.forward_liveness();
    let status_live = relay2.rx_relay.status_liveness();
    assert_eq!(status_live, vec![true]);
    let (deliveries, statuses) = relay2.rx_relay.forward(live, status_live);
    assert!(deliveries.is_empty());
    assert_eq!(statuses.len(), 1);
    for s in statuses {
        s.send(ClientStatus::Ready).unwrap();
    }
    assert_eq!(srx.wait().unwrap(), ClientStatus::Ready);
    assert!(matches!(relay2.apply_command::<(), ()>(Command::DiscardReceiveBuffer(me.id())), Ok(CommandOutcome::Continue)));
    assert!(matches!(relay2.apply_command::<(), ()>(Command::Close(other)), Err(RelayError::IncorrectClientIdInCommand)));
    assert!(matches!(relay2.apply_command::<(), ()>(Command::Close(me.id())), Ok(CommandOutcome::Close)));
    assert!(matches!(
        relay.apply_command::<(), ()>(Command::ReceiveInto(other, ClientTimeout::NoTimeout, oneshot::channel().0)),
        Err(RelayError::IncorrectClientIdInCommand)
    ));
    match ClientRelay::<(), (), TinyMsg, TinyMsg>::commands_closed::<(), ()>() {
        RelayError::BrokenPipe(s) => assert_eq!(s, "cmd_rx"),
        _ => panic!("a broken pipe"),
    }
}

#[test]
fn relay_forwards_to_live_replies_in_order() {
    let mut rx_relay: ClientRelayRx<(), TinyMsg> = ClientRelayRx::new(());
    assert!(rx_relay.receive::<(), ()>(TinyMsg::A, Some(2)).is_ok());
    assert!(rx_relay.receive::<(), ()>(TinyMsg::B("b".to_string()), Some(2)).is_ok());
    match rx_relay.receive::<(), ()>(TinyMsg::A, Some(2)) {
        Err(RelayError::QueueLimitExceeded(s)) => assert_eq!(s, "Tried to exceed msg rx queue capacity."),
        _ => panic!("the buffer is full"),
    }
    let me = mock_client().id();
    let (mut relay, _c) = ClientRelay::<(), (), TinyMsg, TinyMsg>::new(me, None, None, (), ());
    let (dead_tx, dead_rx) = oneshot::channel();
    drop(dead_rx);
    let (live_tx, live_rx) = oneshot::channel();
    relay.apply_command::<(), ()>(Command::ReceiveInto(me, ClientTimeout::NoTimeout, dead_tx)).unwrap();
    relay.apply_command::<(), ()>(Command::ReceiveInto(me, ClientTimeout::NoTimeout, live_tx)).unwrap();
    relay.rx_relay.receive::<(), ()>(TinyMsg::B("hi".to_string()), None).unwrap();
    relay.rx_relay.receive::<(), ()>(TinyMsg::A, None).unwrap();
    let live = relay.rx_relay.forward_liveness();
    assert_eq!(live, vec![false, true]);
    let (deliveries, statuses) = relay.rx_relay.forward(live, vec![]);
    assert!(statuses.is_empty());
    // The dead reply takes nothing: the oldest message goes to the live one.
    assert_eq!(deliveries.len(), 1);
    for (reply, msg) in deliveries {
        assert_eq!(msg, TinyMsg::B("hi".to_string()));
        reply.send(msg).unwrap();
    }
    assert_eq!(live_rx.wait().unwrap(), TinyMsg::B("hi".to_string()));
    // The second message stays buffered, with no reply left waiting.
    let (deliveries, _) = relay.rx_relay.forward(relay.rx_relay.forward_liveness(), vec![]);
    assert!(deliveries.is_empty());
}

#[test]
fn clients_send_collects_the_channels_that_went_through() {
    let mut s: ClientsSend<&str, u8, ()> = ClientsSend::new(vec![("a", ()), ("b", ()), ("c", ())]);
    let r = s.settle(vec![PollOutcome::Ready(1), PollOutcome::NotReady, PollOutcome::Failed]);
    assert!(r.is_none());
    assert_eq!(s.sends.len(), 1);
    let r = s.settle(vec![PollOutcome::Ready(2)]);
    assert_eq!(r, Some(vec![("a", 1), ("b", 2)]));
}

#[test]
fn clients_send_entries_hands_out_what_is_done() {
    let mut s: ClientsSend<&str, u8, ()> = ClientsSend::new(vec![("a", ()), ("b", ())]);
    assert!(s.settle(vec![PollOutcome::NotReady, PollOutcome::Ready(9)]).is_none());
    assert_eq!(s.entries(), vec![("b", 9)]);
}

#[test]
fn clients_receive_splits_messages_and_channels() {
    let mut r: ClientsReceive<&str, char, u8, ()> = ClientsReceive::new(vec![("a", ()), ("b", ())]);
    assert!(r.settle(vec![PollOutcome::NotReady, PollOutcome::Ready(('m', 5))]).is_none());
    let done = r.settle(vec![PollOutcome::Ready(('n', 6))]);
    assert_eq!(done, Some((vec![("b", 'm'), ("a", 'n')], vec![("b", 5), ("a", 6)])));
}

#[test]
fn receive_fails_on_a_failed_read() {
    let mut r: Receive<&str, u8, (), char> = Receive::new(vec![("a", ()), ("b", ()), ("c", ())]);
    let out = r.settle(vec![PollOutcome::Ready(('x', 1)), PollOutcome::Failed, PollOutcome::Ready(('z', 3))]);
    assert_eq!(out, Err(ReceiveError::Unspecified));
    assert_eq!(r.reads.len(), 3);
    assert_eq!(r.entries(), vec![("a", ('x', 1))]);
}

#[test]
fn receive_completes_when_all_answered() {
    let mut r: Receive<&str, u8, (), char> = Receive::new(vec![("a", ()), ("b", ())]);
    assert_eq!(r.settle(vec![PollOutcome::NotReady, PollOutcome::Ready(('y', 2))]), Ok(None));
    assert_eq!(r.settle(vec![PollOutcome::Ready(('x', 1))]), Ok(Some(vec![("b", ('y', 2)), ("a", ('x', 1))])));
}

#[test]
fn codec_frames_lines() {
    let mut codec = MsgCodec;
    let mut buf: Vec<u8> = Vec::new();
    codec.encode_line(b"{\"kind\":\"a\"}", &mut buf);
    codec.encode_line(b"second", &mut buf);
    assert_eq!(buf, b"{\"kind\":\"a\"}\nsecond\n".to_vec());
    assert_eq!(codec.decode_line(&mut buf), Some(b"{\"kind\":\"a\"}".to_vec()));
    assert_eq!(buf, b"second\n".to_vec());
    let mut partial = b"incomplete".to_vec();
    assert_eq!(codec.decode_line(&mut partial), None);
    assert_eq!(partial, b"incomplete".to_vec());
    assert_eq!(codec.decode_line(&mut buf), Some(b"second".to_vec()));
    assert!(buf.is_empty());
}

#[test]
fn client_can_transmit() {
    let (tx, rx) = mpsc::channel(1);
    let mut rx_stream = rx.wait().peekable();
    let client: Client<TinyMsg, TinyMsg> = Client::new(None, tx);

    for _ in 0..10 {
        let msg = TinyMsg::A;
        client.command_sender().clone().send(client.transmit_command(msg.clone())).wait().unwrap();

        match rx_stream.next() {
            Some(Ok(Command::Transmit(client_id, msg2))) => {
                assert_eq!(client_id, client.id());
                assert_eq!(msg, msg2);
            }
            _ => assert!(false),
        }
    }
}

#[test]
fn client_can_receive() {
    let (tx, rx) = mpsc::channel(1);
    let mut rx_stream = rx.wait().peekable();
    let client: Client<TinyMsg, TinyMsg> = Client::new(None, tx);

    for _ in 0..10 {
        let msg = TinyMsg::B("ABC".to_string());
        let (reply_tx, reply_rx) = oneshot::channel();
        let cmd = client.receive_command(ClientTimeout::NoTimeout, reply_tx);
        let delivered = client.command_sender().clone().send(cmd).wait().is_ok();

        match rx_stream.next().unwrap().unwrap() {
            Command::ReceiveInto(client_id, ClientTimeout::NoTimeout, msg_forward_tx) => {
                assert_eq!(client_id, client.id());
                msg_forward_tx.send(msg.clone()).unwrap();
            }
            _ => assert!(false),
        }

        match receive_outcome(client.id(), delivered, reply_rx.wait().ok()) {
            (id, status, maybe_msg) => {
                assert_eq!(id, client.id());
                assert_eq!(status, ClientStatus::Ready);
                assert_eq!(msg, maybe_msg.unwrap());
            }
        }
    }
}

#[test]
fn client_can_receive_queued() {
    let (tx, rx) = mpsc::channel(1);
    let mut rx_stream = rx.wait().peekable();
    let client: Client<TinyMsg, TinyMsg> = Client::new(None, tx);

    let mut pending = vec![];
    for _ in 0..10 {
        let (reply_tx, reply_rx) = oneshot::channel();
        let sender = client.command_sender().clone();
        let cmd = client.receive_command(ClientTimeout::NoTimeout, reply_tx);
        pending.push((TinyMsg::A, sender.send(cmd), reply_rx));
    }

    let mut replies = vec![];
    for (msg, send, reply_rx) in pending {
        let delivered = send.wait().is_ok();
        match rx_stream.next().unwrap().unwrap() {
            Command::ReceiveInto(client_id, ClientTimeout::NoTimeout, msg_forward_tx) => {
                assert_eq!(client_id, client.id());
                msg_forward_tx.send(msg.clone()).unwrap();
            }
            _ => assert!(false),
        }
        replies.push((msg, delivered, reply_rx));
    }

    for (msg, delivered, reply_rx) in replies {
        let (id, status, maybe_msg) = receive_outcome(client.id(), delivered, reply_rx.wait().ok());
        assert_eq!(id, client.id());
        assert_eq!(status, ClientStatus::Ready);
        assert_eq!(msg, maybe_msg.unwrap());
    }
}

#[test]
fn client_can_status() {
    let (tx, rx) = mpsc::channel(1);
    let mut rx_stream = rx.wait().peekable();
    let client: Client<TinyMsg, TinyMsg> = Client::new(None, tx);

    for _ in 0..10 {
        let (reply_tx, reply_rx) = oneshot::channel();
        let delivered = client.command_sender().clone().send(client.status_command(reply_tx)).wait().is_ok();

        match rx_stream.next().unwrap().unwrap() {
            Command::StatusInto(client_id, status_reply_tx) => {
                assert_eq!(client_id, client.id());
                status_reply_tx.send(ClientStatus::Ready).unwrap();
            }
            _ => assert!(false),
        }

        let (id, status) = status_outcome(client.id(), delivered, reply_rx.wait().ok());
        assert_eq!(id, client.id());
        assert_eq!(status, ClientStatus::Ready);
    }
}

#[test]
fn client_can_close() {
    let (tx, rx) = mpsc::channel(1);
    let mut rx_stream = rx.wait().peekable();
    let client: Client<TinyMsg, TinyMsg> = Client::new(None, tx);

    for _ in 0..10 {
        let msg = TinyMsg::B("test".to_string());
        client.command_sender().clone().send(client.transmit_command(msg.clone())).wait().unwrap();
        match rx_stream.next() {
            Some(Ok(Command::Transmit(client_id, msg2))) => {
                assert_eq!(client_id, client.id());
                assert_eq!(msg, msg2);
            }
            _ => assert!(false),
        }
    }
    client.command_sender().clone().send(client.close_command()).wait().unwrap();
    match rx_stream.next() {
        Some(Ok(Command::Close(client_id))) => assert_eq!(client_id, client.id()),
        _ => assert!(false),
    }
}

#[test]
fn a_client_whose_relay_is_gone_is_closed() {
    let (tx, rx) = mpsc::channel(1);
    drop(rx);
    let client: Client<TinyMsg, TinyMsg> = Client::new(None, tx);
    let (reply_tx, reply_rx) = oneshot::channel();
    let delivered = client
        .command_sender()
        .clone()
        .send(client.receive_command(ClientTimeout::NoTimeout, reply_tx))
        .wait()
        .is_ok();
    assert!(!delivered);
    assert_eq!(command_status(delivered), ClientStatus::Closed);
    assert_eq!(command_status(true), ClientStatus::Ready);
    assert_eq!(receive_outcome(client.id(), delivered, reply_rx.wait().ok()), (client.id(), ClientStatus::Closed, None));
    // Delivered, but the relay dropped the reply.
    assert_eq!(receive_outcome::<TinyMsg>(client.id(), true, None), (client.id(), ClientStatus::Closed, None));
    assert_eq!(status_outcome(client.id(), false, Some(ClientStatus::Ready)), (client.id(), ClientStatus::Closed));
    assert_eq!(status_outcome(client.id(), true, None), (client.id(), ClientStatus::Closed));
    assert_eq!(status_outcome(client.id(), true, Some(ClientStatus::Closed)), (client.id(), ClientStatus::Closed));
}

#[test]
fn room_finds_its_clients_and_sorts_receipts() {
    let mut room = Room::default();
    let a = mock_client();
    let b = mock_client();
    let (a_id, b_id) = (a.id(), b.id());
    assert!(a.join(&mut room));
    assert!(room.get(&b_id).is_none());
    assert_eq!(room.get(&a_id).map(|c| c.id()), Some(a_id));
    assert!(b.join(&mut room));
    assert_eq!(room.get(&b_id).map(|c| c.id()), Some(b_id));

    let answers = vec![
        (a_id, ClientStatus::Ready, Some(TinyMsg::A)),
        (b_id, ClientStatus::Closed, None),
    ];
    let (statuses, msgs) = sort_receipts(answers);
    assert_eq!(statuses, vec![(a_id, ClientStatus::Ready), (b_id, ClientStatus::Closed)]);
    assert_eq!(msgs, vec![(a_id, TinyMsg::A)]);
}

#[test]
fn a_timed_receive_keeps_what_came_before_the_timeout() {
    let mut t: ClientsTimedReceive<&str, char, u8, ()> = ClientsTimedReceive::new(vec![("a", ()), ("b", ())]);
    let r = t.receive.as_mut().unwrap();
    assert!(r.settle(vec![PollOutcome::Ready(('m', 5)), PollOutcome::NotReady]).is_none());
    assert_eq!(t.timed_out(), (vec![("a", 'm')], vec![("a", 5)]));
    assert!(t.receive.is_none());

    let mut one: ClientsTimedReceive<&str, char, u8, ()> = ClientsTimedReceive::single("c", ());
    assert_eq!(one.receive.as_ref().unwrap().reads.len(), 1);
    assert_eq!(one.timed_out(), (vec![], vec![]));
}

#[test]
fn a_timed_receive_hands_out_the_answers_so_far() {
    let mut t: TimedReceive<&str, u8, (), char> = TimedReceive::new(vec![("a", ()), ("b", ())]);
    let r = t.receive.as_mut().unwrap();
    assert_eq!(r.settle(vec![PollOutcome::NotReady, PollOutcome::Ready(('y', 2))]), Ok(None));
    assert_eq!(t.timed_out(), vec![("b", ('y', 2))]);
    assert!(t.receive.is_none());
}

#[test]
fn a_room_gives_back_the_clients_it_holds() {
    let (tx, _rx) = mpsc::channel::<Command<TinyMsg, TinyMsg>>(1);
    let named = Client::new(Some("named".to_string()), tx);
    let other = mock_client();
    let (named_id, other_id) = (named.id(), other.id());
    let mut room = Room::new();
    assert!(named.clone().join(&mut room));
    assert!(!named.join(&mut room));
    assert!(other.join(&mut room));
    assert_eq!(room.get(&named_id).and_then(|c| c.name()), Some("named".to_string()));
    assert_eq!(room.remove(&named_id).map(|c| c.id()), Some(named_id));
    assert!(room.remove(&named_id).is_none());
    assert!(!room.contains(&named_id));
    assert_eq!(room.client_ids(), vec![other_id]);
    let all = room.take_all();
    assert_eq!(all.len(), 1);
    assert_eq!(all[0].id(), other_id);
    assert!(room.client_ids().is_empty());
}

#[test]
fn spectators_see_every_message_in_order_and_talkers_are_taken_out() {
    let mut s: Spectators<TinyMsg> = Spectators::new();
    assert!(s.next_broadcast().is_none());
    let a = mock_client();
    let b = mock_client();
    let (a_id, b_id) = (a.id(), b.id());
    assert!(s.arrived(a.clone()));
    assert!(!s.arrived(a));
    assert!(s.arrived(b));
    s.message(TinyMsg::A);
    s.message(TinyMsg::B("two".to_string()));
    let (m, mut ids) = s.next_broadcast().unwrap();
    assert_eq!(m, TinyMsg::A);
    ids.sort();
    let mut both = vec![a_id, b_id];
    both.sort();
    assert_eq!(ids, both);
    assert_eq!(s.take_out(&a_id).map(|c| c.id()), Some(a_id));
    assert!(s.take_out(&a_id).is_none());
    let (m, ids) = s.next_broadcast().unwrap();
    assert_eq!(m, TinyMsg::B("two".to_string()));
    assert_eq!(ids, vec![b_id]);
    assert!(s.next_broadcast().is_none());
    let closed = s.close_all();
    assert_eq!(closed.len(), 1);
    assert!(s.ids().is_empty());
}

#[test]
fn a_relay_receives_under_its_own_limit() {
    let me = mock_client().id();
    let (mut relay, _c) = ClientRelay::<(), (), TinyMsg, TinyMsg>::new(me, None, Some(1), (), ());
    assert!(relay.receive_from_client::<(), ()>(TinyMsg::A).is_ok());
    match relay.receive_from_client::<(), ()>(TinyMsg::A) {
        Err(RelayError::QueueLimitExceeded(s)) => assert_eq!(s, "Tried to exceed msg rx queue capacity."),
        _ => panic!("the buffer is full"),
    }
}

#[test]
fn group_sends_keep_clients_apart() {
    let mut s: ClientsSend<&str, u8, ()> = ClientsSend::new(vec![("a", ()), ("b", ())]);
    assert!(s.settle(vec![PollOutcome::NotReady, PollOutcome::Ready(2)]).is_none());
    assert_eq!(s.sends.iter().map(|e| e.0).collect::<Vec<_>>(), vec!["a"]);
    assert_eq!(s.settle(vec![PollOutcome::Ready(1)]), Some(vec![("b", 2), ("a", 1)]));
}
