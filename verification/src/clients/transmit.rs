//! Sending a message to each client of a group, as a group command.

use vstd::prelude::*;
use super::Cmd;
use super::command::CommandMode;

verus! {

/// Which message each client of a group is sent.
pub enum MessageMode<M> {
    /// A copy of this message for every client.
    Constant(M),
    /// For each client, the message at its position.
    Lookup(Vec<M>),
}

/// The group command that sends the messages of `msgs`: the same transmit
/// command for every client, or for each client the transmit command of its
/// message.
pub fn transmit_commands<M>(msgs: MessageMode<M>) -> (cmds: CommandMode<M>)
    ensures
        match msgs {
            MessageMode::Constant(m) => cmds == CommandMode::Constant(Cmd::Transmit(m)),
            MessageMode::Lookup(v) => cmds matches CommandMode::Lookup(c) && c@.len() == v@.len()
                && forall|i: int| 0 <= i < v@.len() ==> #[trigger] c@[i] == Cmd::Transmit(v@[i]),
        },
{
    match msgs {
        MessageMode::Constant(msg) => CommandMode::Constant(Cmd::Transmit(msg)),
        MessageMode::Lookup(msgs) => {
            let ghost m0 = msgs@;
            let mut msgs = msgs;
            let mut cmds: Vec<Cmd<M>> = Vec::new();
            let ghost mut i: int = 0;
            while msgs.len() > 0
                invariant
                    0 <= i <= m0.len(),
                    msgs@ == m0.skip(i),
                    cmds@.len() == i,
                    forall|k: int| 0 <= k < i ==> #[trigger] cmds@[k] == Cmd::Transmit(m0[k]),
                decreases msgs@.len(),
            {
                let msg = msgs.remove(0);
                proof {
                    assert(m0.skip(i).drop_first() =~= m0.skip(i + 1));
                }
                cmds.push(Cmd::Transmit(msg));
                proof {
                    i = i + 1;
                }
            }
            CommandMode::Lookup(cmds)
        },
    }
}

} // verus!
