use futures::Future;
use sirpent::clients::command::{flatten, CommandMode, FlushOutcome, GroupCommand, GroupPoll, StartSendOutcome};
use sirpent::clients::receive::{GroupReceive, ReceiveFailure, ReplyOutcome};
use sirpent::clients::receive_timeout::GroupReceiveTimeout;
use sirpent::clients::transmit::{transmit_commands, MessageMode};
use sirpent::clients::Cmd;

fn transmitted(cmd: &Cmd<u8>) -> Option<u8> {
    match cmd {
        Cmd::Transmit(m) => Some(*m),
        _ => None,
    }
}

#[test]
fn a_constant_command_goes_to_every_client() {
    let mut group: GroupCommand<&str, u8, u8, &str> =
        GroupCommand::new(vec![("a", 1), ("b", 2)], CommandMode::Constant(Cmd::Transmit(7)));
    let sends = group.take_sends();
    assert_eq!(sends.len(), 2);
    assert_eq!(sends[0].0, ("a", 1));
    assert_eq!(sends[1].0, ("b", 2));
    assert_eq!(transmitted(&sends[0].1), Some(7));
    assert_eq!(transmitted(&sends[1].1), Some(7));
    assert!(matches!(group.poll_result(), GroupPoll::Done));
}

#[test]
fn a_lookup_gives_each_client_its_command() {
    let cmds = transmit_commands(MessageMode::Lookup(vec![10, 20]));
    let mut group: GroupCommand<&str, u8, u8, &str> = GroupCommand::new(vec![("a", 1), ("b", 2)], cmds);
    let sends = group.take_sends();
    assert_eq!(transmitted(&sends[0].1), Some(10));
    assert_eq!(transmitted(&sends[1].1), Some(20));
    match transmit_commands(MessageMode::Constant(3)) {
        CommandMode::Constant(cmd) => assert_eq!(transmitted(&cmd), Some(3)),
        _ => panic!("a constant message gives a constant command"),
    }
}

#[test]
fn a_group_command_completes_each_client_once() {
    let mut group: GroupCommand<&str, u8, u8, &str> =
        GroupCommand::new(vec![("a", 1), ("b", 2), ("c", 3)], CommandMode::Constant(Cmd::Transmit(0)));
    let mut sends = group.take_sends().into_iter();
    let (a, _) = sends.next().unwrap();
    let (b, cmd_b) = sends.next().unwrap();
    let (c, _) = sends.next().unwrap();
    group.after_sends(vec![
        StartSendOutcome::Ready(a.0, a.1),
        StartSendOutcome::NotReady(b, cmd_b),
        StartSendOutcome::Failed(c.0, "sink gone"),
    ]);
    assert_eq!(group.take_flushing(), vec![("a", 1)]);
    group.after_flushes(vec![FlushOutcome::NotReady("a", 1)]);
    match group.poll_result() {
        GroupPoll::Ready(v) => assert_eq!(v, vec![("c", Err("sink gone"))]),
        _ => panic!("c has completed"),
    }
    assert!(matches!(group.poll_result(), GroupPoll::NotReady));

    let retry = group.take_sends();
    assert_eq!(retry.len(), 1);
    assert_eq!(retry[0].0, ("b", 2));
    let ((id, sink), _) = retry.into_iter().next().unwrap();
    group.after_sends(vec![StartSendOutcome::Ready(id, sink)]);
    let flushing = group.take_flushing();
    assert_eq!(flushing, vec![("a", 1), ("b", 2)]);
    group.after_flushes(vec![FlushOutcome::Ready("a", 1), FlushOutcome::Failed("b", "flush failed")]);
    match group.poll_result() {
        GroupPoll::Ready(v) => assert_eq!(v, vec![("a", Ok(1)), ("b", Err("flush failed"))]),
        _ => panic!("a and b have completed"),
    }
    assert!(matches!(group.poll_result(), GroupPoll::Done));
}

#[test]
fn flatten_keeps_the_order_of_the_batches() {
    assert_eq!(flatten(vec![vec![1, 2], vec![], vec![3]]), vec![1, 2, 3]);
    assert_eq!(flatten::<u8>(vec![]), Vec::<u8>::new());
}

#[test]
fn a_group_receive_waits_for_each_reply() {
    let mut receive: GroupReceive<&str, u8, u8, &str> = GroupReceive::new(vec![("a", 1), ("b", 2)]);
    let mut commands = receive.group_command.take().unwrap();
    let mut sent = Vec::new();
    for ((id, (sink, reply_rx)), cmd) in commands.take_sends() {
        match cmd {
            Cmd::ReceiveInto(mut reply_tx) => {
                // The relay forwards the client's message into the reply.
                if id == "a" {
                    let (reply, m) = reply_tx.complete(5).unwrap();
                    reply.send(m).unwrap();
                }
            }
            _ => panic!("a receive command"),
        }
        sent.push(StartSendOutcome::Ready(id, (sink, reply_rx)));
    }
    commands.after_sends(sent);
    let flushed = commands.take_flushing().into_iter().map(|(id, p)| FlushOutcome::Ready(id, p)).collect();
    commands.after_flushes(flushed);
    let event = commands.poll_result();
    assert!(receive.command_polled(commands, event));
    let commands = receive.group_command.take().unwrap();
    let mut commands = commands;
    let event = commands.poll_result();
    assert!(!receive.command_polled(commands, event));
    assert!(receive.group_command.is_none());

    let mut replies = Vec::new();
    for (id, sink, reply_rx) in receive.take_awaited() {
        match reply_rx.wait() {
            Ok(m) => replies.push(ReplyOutcome::Ready(id, sink, m)),
            Err(_) => replies.push(ReplyOutcome::Cancelled(id)),
        }
    }
    receive.after_replies(replies);
    match receive.poll_result() {
        GroupPoll::Ready(v) => {
            assert_eq!(v.len(), 2);
            assert_eq!(v[0].0, "a");
            assert!(matches!(v[0].1, Ok((5, 1))));
            assert_eq!(v[1].0, "b");
            assert!(matches!(v[1].1, Err(ReceiveFailure::Cancelled)));
        }
        _ => panic!("both clients have completed"),
    }
    assert!(matches!(receive.poll_result(), GroupPoll::Done));
}

#[test]
fn a_failed_receive_command_strands_the_group() {
    let mut receive: GroupReceive<&str, u8, u8, &str> = GroupReceive::new(vec![("a", 1)]);
    let mut commands = receive.group_command.take().unwrap();
    let failed = commands.take_sends().into_iter().map(|((id, _), _)| StartSendOutcome::Failed(id, "gone")).collect();
    commands.after_sends(failed);
    let event = commands.poll_result();
    assert!(receive.command_polled(commands, event));
    match receive.poll_result() {
        GroupPoll::Ready(v) => {
            assert_eq!(v[0].0, "a");
            assert!(matches!(v[0].1, Err(ReceiveFailure::Commanding("gone"))));
        }
        _ => panic!("a has completed"),
    }
    let mut commands = receive.group_command.take().unwrap();
    let event = commands.poll_result();
    assert!(!receive.command_polled(commands, event));
    assert!(matches!(receive.poll_result(), GroupPoll::NotReady));
}

#[test]
fn a_timed_receive_hands_out_the_batches_so_far() {
    let receive: GroupReceive<&str, u8, u8, &str> = GroupReceive::new(vec![("a", 1)]);
    let mut timed = GroupReceiveTimeout::new(receive);
    timed.collect(vec![("a", Ok((9, 1)))]);
    timed.collect(vec![]);
    let batches = timed.finish();
    assert_eq!(batches.len(), 2);
    assert!(matches!(batches[0][0], ("a", Ok((9, 1)))));
    assert!(batches[1].is_empty());
}
