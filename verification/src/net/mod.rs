//! The network side: kinds of clients and the line framing of messages:
//! each message travels as one line of text ended by a newline.

use vstd::prelude::*;

pub mod clients_receive;
pub mod clients_receive_timed;
pub mod clients_send;
pub mod command;
pub mod comms;
pub mod name_service;
pub mod pending;

verus! {

/// Whether a client plays or only watches.
#[derive(PartialEq, Eq, Clone, Copy, Debug, Structural)]
pub enum ClientKind {
    Player,
    Spectator,
}

/// The newline that ends each message.
pub const NEWLINE: u8 = 10u8;

/// Frames messages as lines.
#[derive(Clone, Copy, Debug)]
pub struct MsgCodec;

impl MsgCodec {
    /// Takes the first complete line off the front of `buf`: when `buf`
    /// holds a newline, removes the bytes before the first one and that
    /// newline, and returns those bytes; otherwise leaves `buf` as it is.
    pub fn decode_line(&mut self, buf: &mut Vec<u8>) -> (line: Option<Vec<u8>>)
        ensures
            match line {
                Some(l) => exists|n: int| {
                    &&& 0 <= n < old(buf)@.len()
                    &&& old(buf)@[n] == NEWLINE
                    &&& forall|j: int| 0 <= j < n ==> old(buf)@[j] != NEWLINE
                    &&& l@ == old(buf)@.subrange(0, n)
                    &&& final(buf)@ == old(buf)@.subrange(n + 1, old(buf)@.len() as int)
                },
                None => (forall|j: int| 0 <= j < old(buf)@.len() ==> old(buf)@[j] != NEWLINE) && final(buf)@ == old(buf)@,
            },
    {
        let mut n: usize = 0;
        while n < buf.len()
            invariant
                n <= buf@.len(),
                buf@ == old(buf)@,
                forall|j: int| 0 <= j < n ==> buf@[j] != NEWLINE,
            decreases buf.len() - n,
        {
            if buf[n] == NEWLINE {
                let ghost whole = buf@;
                let mut rest = buf.split_off(n + 1);
                buf.truncate(n);
                std::mem::swap(buf, &mut rest);
                assert(rest@ =~= whole.subrange(0, n as int));
                return Some(rest);
            }
            n = n + 1;
        }
        None
    }

    /// Appends to `buf` the line that carries `payload`: its bytes, then a newline.
    pub fn encode_line(&mut self, payload: &[u8], buf: &mut Vec<u8>)
        ensures
            final(buf)@ == old(buf)@ + payload@ + seq![NEWLINE],
    {
        let mut i: usize = 0;
        while i < payload.len()
            invariant
                i <= payload@.len(),
                buf@ == old(buf)@ + payload@.subrange(0, i as int),
            decreases payload.len() - i,
        {
            buf.push(payload[i]);
            proof {
                assert(payload@.subrange(0, i + 1) =~= payload@.subrange(0, i as int).push(payload@[i as int]));
            }
            i = i + 1;
        }
        assert(payload@.subrange(0, i as int) =~= payload@);
        buf.push(NEWLINE);
    }
}

/// Decoding what encoding appended gives the payload back, provided the
/// payload holds no newline: in `payload`, a newline, then `rest`, the first
/// newline is the one encoding added, so the line that `decode_line` takes
/// is `payload` and `rest` stays in the buffer.
pub proof fn line_round_trip(payload: Seq<u8>, rest: Seq<u8>, n: int)
    requires
        forall|j: int| 0 <= j < payload.len() ==> payload[j] != NEWLINE,
        0 <= n < (payload + seq![NEWLINE] + rest).len(),
        (payload + seq![NEWLINE] + rest)[n] == NEWLINE,
        forall|j: int| 0 <= j < n ==> (payload + seq![NEWLINE] + rest)[j] != NEWLINE,
    ensures
        (payload + seq![NEWLINE] + rest).subrange(0, n) == payload,
        (payload + seq![NEWLINE] + rest).subrange(n + 1, (payload + seq![NEWLINE] + rest).len() as int) == rest,
{
    let buf = payload + seq![NEWLINE] + rest;
    let k = payload.len() as int;
    assert(buf[k] == NEWLINE);
    if n < k {
        assert(buf[n] == payload[n]);
    }
    assert(n == k);
    assert(buf.subrange(0, n) =~= payload);
    assert(buf.subrange(n + 1, buf.len() as int) =~= rest);
}

} // verus!
