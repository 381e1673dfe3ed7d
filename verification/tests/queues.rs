use futures::sync::oneshot;
use futures::Future;
use sirpent::client_future::{ClientFuture, ClientFutureCommand};
use sirpent::clients::{Client, Cmd, QueueError, RaceableOneshotSender};
use sirpent::collect_results::{collect_results, CollectPoll, StreamEvent};
use sirpent::game_future::retain_oks;

#[test]
fn bounded_client_refuses_beyond_the_limit() {
    let (mut client, _tx) = Client::<u8, (), (), _, &str>::bounded(1, (), (), 2);
    assert!(client.handle_command(Cmd::Transmit("a")).is_ok());
    assert!(client.handle_command(Cmd::Transmit("b")).is_ok());
    assert_eq!(client.handle_command(Cmd::Transmit("c")), Err(QueueError::TxQueueFull));
    assert_eq!(client.next_to_send(), Some(&"a"));
    client.sent();
    assert_eq!(client.next_to_send(), Some(&"b"));
    client.sent();
    assert_eq!(client.next_to_send(), None);
    assert!(client.receive_from_client("x").is_ok());
    assert!(client.receive_from_client("y").is_ok());
    assert_eq!(client.receive_from_client("z"), Err(QueueError::RxQueueFull));
    assert_eq!(client.client_id, 1);
}

#[test]
fn client_forwards_oldest_message_to_oldest_reply() {
    let (mut client, _tx) = Client::<u8, (), (), _, &str>::unbounded(7, (), ());
    assert_eq!(client.client_id(), 7);
    let (tx1, rx1) = oneshot::channel();
    let (tx2, rx2) = oneshot::channel();
    assert!(client.next_forward().is_none());
    client.handle_command(Cmd::ReceiveInto(RaceableOneshotSender::new(tx1))).unwrap();
    client.handle_command(Cmd::ReceiveInto(RaceableOneshotSender::new(tx2))).unwrap();
    assert!(client.next_forward().is_none());
    client.receive_from_client("first").unwrap();
    client.receive_from_client("second").unwrap();
    let (m, mut relay) = client.next_forward().unwrap();
    let (reply, m) = relay.complete(m).unwrap();
    reply.send(m).unwrap();
    assert!(relay.complete("again").is_none());
    let (m, mut relay) = client.next_forward().unwrap();
    let (reply, m) = relay.complete(m).unwrap();
    reply.send(m).unwrap();
    assert!(client.next_forward().is_none());
    assert_eq!(rx1.wait().unwrap(), "first");
    assert_eq!(rx2.wait().unwrap(), "second");
}

#[test]
fn raceable_sender_completes_only_when_alone() {
    let (tx, rx) = oneshot::channel::<u8>();
    let mut a = RaceableOneshotSender::new(tx);
    let mut b = a.clone();
    assert!(a.complete(1).is_none());
    let (reply, m) = b.complete(2).unwrap();
    assert_eq!(m, 2);
    reply.send(m).unwrap();
    assert_eq!(rx.wait().unwrap(), 2);
}

#[test]
fn client_future_answers_identity_and_queues() {
    let (mut client, _tx) = ClientFuture::<u32, (), (), _, &str>::bounded(42, (), (), 1);
    let (id_tx, id_rx) = oneshot::channel();
    let (reply, id) = client.handle_command(ClientFutureCommand::GetId(id_tx)).unwrap().unwrap();
    assert_eq!(id, 42);
    reply.send(id).unwrap();
    assert_eq!(id_rx.wait().unwrap(), 42);
    assert!(matches!(client.handle_command(ClientFutureCommand::Transmit("m")), Ok(None)));
    assert!(matches!(client.handle_command(ClientFutureCommand::Transmit("n")), Err(QueueError::TxQueueFull)));
    assert_eq!(client.next_to_send(), Some("m"));
    assert_eq!(client.next_to_send(), None);
    let (tx, rx) = oneshot::channel();
    assert!(matches!(client.handle_command(ClientFutureCommand::Receive(tx)), Ok(None)));
    let (tx_extra, _rx_extra) = oneshot::channel();
    assert!(matches!(client.handle_command(ClientFutureCommand::Receive(tx_extra)), Err(QueueError::RelayQueueFull)));
    assert!(client.forward().is_none());
    client.receive_from_client("hello").unwrap();
    let (reply, m) = client.forward().unwrap();
    assert_eq!(m, "hello");
    reply.send(m).unwrap();
    assert!(client.forward().is_none());
    assert_eq!(rx.wait().unwrap(), "hello");
    assert_eq!(client.client_id(), 42);
}

#[test]
fn collect_results_keeps_everything_in_order() {
    let mut c = collect_results::<u8, &str>();
    assert!(matches!(c.poll_step(StreamEvent::Item(1)), CollectPoll::Continue));
    assert!(matches!(c.poll_step(StreamEvent::NotReady), CollectPoll::NotReady));
    assert!(matches!(c.poll_step(StreamEvent::Error("bad")), CollectPoll::Continue));
    assert!(matches!(c.poll_step(StreamEvent::Item(3)), CollectPoll::Continue));
    match c.poll_step(StreamEvent::End) {
        CollectPoll::Ready(items) => assert_eq!(items, vec![Ok(1), Err("bad"), Ok(3)]),
        _ => panic!("the stream ended"),
    }
    match c.poll_step(StreamEvent::End) {
        CollectPoll::Ready(items) => assert!(items.is_empty()),
        _ => panic!("the stream ended"),
    }
}

#[test]
fn retain_oks_drops_failures() {
    let h = vec![
        ("a".to_string(), Ok(1)),
        ("b".to_string(), Err("no")),
        ("c".to_string(), Ok(3)),
    ];
    assert_eq!(retain_oks(h), vec![("a".to_string(), 1), ("c".to_string(), 3)]);
}
