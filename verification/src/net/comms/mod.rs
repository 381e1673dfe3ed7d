//! Communication with clients through per-client relays that the server
//! commands: the commands, the statuses and timeouts, and helpers.

use vstd::prelude::*;
use std::time::Duration;
use futures::sync::oneshot;
use uuid::Uuid;

pub mod client;
pub mod relay;
pub mod room;

pub use self::client::Client;
pub use self::room::Room;
pub use crate::collect_results::CollectResults;

verus! {

/// Clients are told apart by a random UUID.
pub type ClientId = Uuid;

/// How long to wait for a client.
#[derive(Clone, Copy, Debug, PartialEq)]
pub enum ClientTimeout {
    /// Wait as long as it takes.
    NoTimeout,
    /// Keep the client after this long without a reply.
    KeepAliveAfter(Duration),
    /// Disconnect the client after this long without a reply.
    DisconnectAfter(Duration),
}

/// Whether a client can still be talked to.
#[derive(Clone, Copy, Debug, PartialEq, Eq, Structural)]
pub enum ClientStatus {
    Ready,
    Closed,
}

/// A command to the relay of one client; each names the client it is meant for.
#[verifier::reject_recursive_types(T)]
#[verifier::reject_recursive_types(R)]
pub enum Command<T, R> where T: Send, R: Send {
    /// Send a message to the client.
    Transmit(ClientId, T),
    /// Receive a message from the client into the one-shot sender.
    ReceiveInto(ClientId, ClientTimeout, oneshot::Sender<R>),
    /// Discard all messages already received from the client.
    DiscardReceiveBuffer(ClientId),
    /// Report the client's status into the one-shot sender.
    StatusInto(ClientId, oneshot::Sender<ClientStatus>),
    /// Disconnect the client.
    Close(ClientId),
}

/// What delivering a command to a client's relay tells of the client:
/// `Ready` when the command channel took it, `Closed` when it is gone.
pub fn command_status(delivered: bool) -> (s: ClientStatus)
    ensures
        s == (if delivered { ClientStatus::Ready } else { ClientStatus::Closed }),
{
    if delivered {
        ClientStatus::Ready
    } else {
        ClientStatus::Closed
    }
}

/// The answer of client `id` to a receive: `Ready` and the message when the
/// command was delivered and the reply came; otherwise `Closed` and no message.
pub fn receive_outcome<R>(id: ClientId, delivered: bool, reply: Option<R>) -> (r: (ClientId, ClientStatus, Option<R>))
    ensures
        r == (if delivered && reply is Some {
            (id, ClientStatus::Ready, reply)
        } else {
            (id, ClientStatus::Closed, None::<R>)
        }),
{
    if delivered {
        match reply {
            Some(m) => (id, ClientStatus::Ready, Some(m)),
            None => (id, ClientStatus::Closed, None),
        }
    } else {
        (id, ClientStatus::Closed, None)
    }
}

/// The answer of client `id` to a status request: the status that the relay
/// replied, or `Closed` when the command was not delivered or no reply came.
pub fn status_outcome(id: ClientId, delivered: bool, reply: Option<ClientStatus>) -> (r: (ClientId, ClientStatus))
    ensures
        r == (match reply {
            Some(s) if delivered => (id, s),
            _ => (id, ClientStatus::Closed),
        }),
{
    if delivered {
        match reply {
            Some(s) => (id, s),
            None => (id, ClientStatus::Closed),
        }
    } else {
        (id, ClientStatus::Closed)
    }
}

/// The messages among the answers to a receive, in order, each with the
/// identifier of the client that sent it.
pub open spec fn messages_of<R>(answers: Seq<(ClientId, ClientStatus, Option<R>)>) -> Seq<(ClientId, R)>
    decreases answers.len(),
{
    if answers.len() == 0 {
        Seq::empty()
    } else {
        let rest = messages_of(answers.drop_last());
        match answers.last().2 {
            Some(m) => rest.push((answers.last().0, m)),
            None => rest,
        }
    }
}

/// Every answer that carries a message contributes it: the messages are, in
/// order, the identifier and message of exactly the answers whose message is
/// present, so there are as many as there are such answers.
pub proof fn receipts_keep_every_message<R>(answers: Seq<(ClientId, ClientStatus, Option<R>)>)
    ensures
        messages_of(answers) == answers.filter(|a: (ClientId, ClientStatus, Option<R>)| a.2 is Some)
            .map_values(|a: (ClientId, ClientStatus, Option<R>)| (a.0, a.2->0)),
        forall|i: int| 0 <= i < answers.len() && (#[trigger] answers[i]).2 is Some
            ==> messages_of(answers).contains((answers[i].0, answers[i].2->0)),
    decreases answers.len(),
{
    reveal(Seq::filter);
    if answers.len() > 0 {
        let a1 = answers.drop_last();
        receipts_keep_every_message(a1);
        let f1 = a1.filter(|a: (ClientId, ClientStatus, Option<R>)| a.2 is Some);
        let last = answers.last();
        if last.2 is Some {
            assert(answers.filter(|a: (ClientId, ClientStatus, Option<R>)| a.2 is Some) == f1.push(last));
            assert(f1.push(last).map_values(|a: (ClientId, ClientStatus, Option<R>)| (a.0, a.2->0))
                =~= f1.map_values(|a: (ClientId, ClientStatus, Option<R>)| (a.0, a.2->0)).push((last.0, last.2->0)));
        } else {
            assert(answers.filter(|a: (ClientId, ClientStatus, Option<R>)| a.2 is Some) == f1);
        }
        let ms = messages_of(answers);
        let m1 = messages_of(a1);
        assert forall|i: int| 0 <= i < answers.len() && (#[trigger] answers[i]).2 is Some
            implies ms.contains((answers[i].0, answers[i].2->0)) by {
            if i < answers.len() - 1 {
                assert(a1[i] == answers[i]);
                let k = choose|k: int| 0 <= k < m1.len() && m1[k] == (a1[i].0, a1[i].2->0);
                assert(ms[k] == m1[k]);
            } else {
                assert(ms[m1.len() as int] == (last.0, last.2->0));
            }
        }
    }
}

/// Sorts the answers of a room's clients to a receive into the status of
/// each client and the messages of those that sent one, both in the order
/// of the answers.
pub fn sort_receipts<R>(answers: Vec<(ClientId, ClientStatus, Option<R>)>) -> (r: (
    Vec<(ClientId, ClientStatus)>,
    Vec<(ClientId, R)>,
))
    ensures
        r.0@ == answers@.map_values(|a: (ClientId, ClientStatus, Option<R>)| (a.0, a.1)),
        r.1@ == messages_of(answers@),
        r.1@ == answers@.filter(|a: (ClientId, ClientStatus, Option<R>)| a.2 is Some)
            .map_values(|a: (ClientId, ClientStatus, Option<R>)| (a.0, a.2->0)),
        forall|i: int| 0 <= i < answers@.len() && (#[trigger] answers@[i]).2 is Some
            ==> r.1@.contains((answers@[i].0, answers@[i].2->0)),
{
    proof {
        receipts_keep_every_message(answers@);
    }
    let ghost s = answers@;
    let mut answers = answers;
    let mut statuses: Vec<(ClientId, ClientStatus)> = Vec::new();
    let mut msgs: Vec<(ClientId, R)> = Vec::new();
    let ghost mut i: int = 0;
    while answers.len() > 0
        invariant
            0 <= i <= s.len(),
            answers@ == s.skip(i),
            statuses@ == s.take(i).map_values(|a: (ClientId, ClientStatus, Option<R>)| (a.0, a.1)),
            msgs@ == messages_of(s.take(i)),
        decreases answers@.len(),
    {
        let (id, status, msg) = answers.remove(0);
        proof {
            assert(s.take(i + 1).drop_last() =~= s.take(i));
            assert(s.take(i + 1).last() == s[i]);
            assert(s.skip(i).drop_first() =~= s.skip(i + 1));
        }
        statuses.push((id, status));
        match msg {
            Some(m) => msgs.push((id, m)),
            None => {},
        }
        proof {
            assert(statuses@ =~= s.take(i + 1).map_values(|a: (ClientId, ClientStatus, Option<R>)| (a.0, a.1)));
            i = i + 1;
        }
    }
    assert(s.take(i) =~= s);
    (statuses, msgs)
}

/// A collector of everything a stream yields (see `collect_results`).
pub fn new<T, E>() -> (c: CollectResults<T, E>)
    ensures
        c@ == Seq::<Result<T, E>>::empty(),
{
    crate::collect_results::collect_results()
}

} // verus!
