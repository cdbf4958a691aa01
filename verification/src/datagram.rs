//! What one receive on the socket holds: messages one after the other,
//! each at the alignment of the protocol.

use vstd::prelude::*;
use crate::attr::to_vec;
use crate::bytes::{aligned, pad_len, u32_value, ByteOrder};
use crate::consts::NLMSG_DONE;
use crate::error::NlError;
use crate::frame::{
    link_message_of, link_message_view, message_length, netns_message_of, netns_message_view,
};
use crate::netlink::{Ifinfomsg, Netns};
use crate::nl::{NlPayload, Nlmsghdr};
use crate::rtnetlink::{dump_step_outcome, DumpStep, RTNetlink, Reply};

verus! {

/// The length that the message at the start of `b` states, if `b` holds
/// that many bytes and the length is at least a header.
pub open spec fn stated_length(order: ByteOrder, b: Seq<u8>) -> Option<int> {
    if b.len() >= 16 && 16 <= u32_value(order, b.subrange(0, 4)) <= b.len() {
        Some(u32_value(order, b.subrange(0, 4)) as int)
    } else {
        None
    }
}

/// Where the next message begins after a message of `len` bytes in a
/// datagram of `total` bytes: at the next alignment boundary, or at the
/// end where the padding of the last message was left off.
pub open spec fn next_start(len: int, total: int) -> int {
    if aligned(len) <= total {
        aligned(len)
    } else {
        total
    }
}

/// `head` put before the messages of a successful rest.
pub open spec fn joined(head: Seq<Seq<u8>>, rest: Option<Seq<Seq<u8>>>) -> Option<Seq<Seq<u8>>> {
    match rest {
        Some(r) => Some(head + r),
        None => None,
    }
}

/// The messages of a datagram, each with exactly the bytes that its
/// header states, if the datagram is made of whole messages.
pub open spec fn messages_of(order: ByteOrder, b: Seq<u8>) -> Option<Seq<Seq<u8>>>
    decreases b.len(),
{
    if b.len() == 0 {
        Some(Seq::<Seq<u8>>::empty())
    } else {
        match stated_length(order, b) {
            None => None,
            Some(len) => if 16 <= len <= b.len() {
                joined(seq![b.take(len)], messages_of(order, b.skip(next_start(len, b.len() as int))))
            } else {
                None
            },
        }
    }
}

/// True if the reply ends a dump that was asked for with the sequence
/// number `seq`: it is the end marker, or a failure of any kind.
pub open spec fn ends_dump(seq: u32, reply: Result<Nlmsghdr<Ifinfomsg>, NlError>) -> bool {
    !(dump_step_outcome(seq, reply) matches Ok(DumpStep::Item(_)))
}

/// Cuts a datagram into its messages.  A datagram that is not made of
/// whole messages is a decode failure.
pub fn split_datagram(order: ByteOrder, b: &[u8]) -> (r: Result<Vec<Vec<u8>>, NlError>)
    ensures
        match messages_of(order, b@) {
            Some(m) => r matches Ok(v) && v@.len() == m.len() && forall|i: int|
                0 <= i < m.len() ==> (#[trigger] v@[i])@ == m[i],
            None => r is Err && r->Err_0 == NlError::De,
        },
{
    let mut out: Vec<Vec<u8>> = Vec::new();
    let ghost mut done: Seq<Seq<u8>> = Seq::empty();
    let mut pos: usize = 0;
    assert(b@.skip(0) =~= b@);
    assert(messages_of(order, b@) is Some ==> done + messages_of(order, b@)->Some_0
        =~= messages_of(order, b@)->Some_0);
    while pos < b.len()
        invariant
            pos <= b.len(),
            messages_of(order, b@) == joined(done, messages_of(order, b@.skip(pos as int))),
            out@.len() == done.len(),
            forall|i: int| 0 <= i < out@.len() ==> (#[trigger] out@[i])@ == done[i],
        decreases b.len() - pos,
    {
        let ghost rest = b@.skip(pos as int);
        let tail = vstd::slice::slice_subrange(b, pos, b.len());
        assert(tail@ =~= rest);
        let len: usize = match message_length(order, tail) {
            Some(len) => len,
            None => {
                return Err(NlError::De);
            },
        };
        let piece = to_vec(vstd::slice::slice_subrange(b, pos, pos + len));
        assert(piece@ =~= rest.take(len as int));
        let room: usize = b.len() - pos;
        let pad: usize = pad_len(len);
        let step: usize = if pad <= room - len {
            len + pad
        } else {
            room
        };
        assert(step == next_start(len as int, rest.len() as int));
        assert(stated_length(order, rest) == Some(len as int));
        out.push(piece);
        proof {
            let before = done;
            let after = messages_of(order, rest.skip(step as int));
            done = done.push(rest.take(len as int));
            assert(rest.skip(step as int) =~= b@.skip(pos + step));
            assert(messages_of(order, rest) == joined(seq![rest.take(len as int)], after));
            if after is Some {
                assert(before + (seq![rest.take(len as int)] + after->Some_0) =~= done
                    + after->Some_0);
            }
        }
        pos = pos + step;
    }
    assert(b@.skip(b.len() as int) =~= Seq::<u8>::empty());
    assert(done + Seq::<Seq<u8>>::empty() =~= done);
    Ok(out)
}

/// True if `out` holds, for each message of the datagram `b`, what the
/// message reads as under `read`, in order; a datagram that is not made
/// of whole messages reads as one decode failure.
pub open spec fn link_replies(
    order: ByteOrder,
    b: Seq<u8>,
    out: Seq<Result<Nlmsghdr<Ifinfomsg>, NlError>>,
) -> bool {
    match messages_of(order, b) {
        None => out.len() == 1 && out[0] == Err::<Nlmsghdr<Ifinfomsg>, NlError>(NlError::De),
        Some(m) => out.len() == m.len() && forall|i: int|
            0 <= i < m.len() ==> match link_message_of(order, m[i]) {
                Some(v) => (#[trigger] out[i]) matches Ok(nl) && link_message_view(nl) == v && (
                nl.nl_payload matches NlPayload::Payload(msg) ==> msg.rtattrs.order == order),
                None => out[i] == Err::<Nlmsghdr<Ifinfomsg>, NlError>(NlError::De),
            },
    }
}

/// As `link_replies`, for messages that carry a namespace body.
pub open spec fn netns_replies(
    order: ByteOrder,
    b: Seq<u8>,
    out: Seq<Result<Nlmsghdr<Netns>, NlError>>,
) -> bool {
    match messages_of(order, b) {
        None => out.len() == 1 && out[0] == Err::<Nlmsghdr<Netns>, NlError>(NlError::De),
        Some(m) => out.len() == m.len() && forall|i: int|
            0 <= i < m.len() ==> match netns_message_of(order, m[i]) {
                Some(v) => (#[trigger] out[i]) matches Ok(nl) && netns_message_view(nl) == v && (
                nl.nl_payload matches NlPayload::Payload(ns) ==> ns.rtattrs.order == order),
                None => out[i] == Err::<Nlmsghdr<Netns>, NlError>(NlError::De),
            },
    }
}

/// Reads the link messages of a datagram, in order.
pub fn read_link_datagram(order: ByteOrder, b: &[u8]) -> (out: Vec<
    Result<Nlmsghdr<Ifinfomsg>, NlError>,
>)
    ensures
        link_replies(order, b@, out@),
{
    let mut out: Vec<Result<Nlmsghdr<Ifinfomsg>, NlError>> = Vec::new();
    let pieces = match split_datagram(order, b) {
        Ok(pieces) => pieces,
        Err(e) => {
            out.push(Err(NlError::De));
            return out;
        },
    };
    let ghost m = messages_of(order, b@)->Some_0;
    let mut i: usize = 0;
    while i < pieces.len()
        invariant
            i <= pieces.len(),
            pieces@.len() == m.len(),
            forall|k: int| 0 <= k < m.len() ==> (#[trigger] pieces@[k])@ == m[k],
            out@.len() == i,
            forall|k: int|
                0 <= k < i ==> match link_message_of(order, m[k]) {
                    Some(v) => (#[trigger] out@[k]) matches Ok(nl) && link_message_view(nl) == v
                        && (nl.nl_payload matches NlPayload::Payload(msg) ==> msg.rtattrs.order
                        == order),
                    None => out@[k] == Err::<Nlmsghdr<Ifinfomsg>, NlError>(NlError::De),
                },
        decreases pieces.len() - i,
    {
        let reply = match Nlmsghdr::<Ifinfomsg>::from_bytes(order, pieces[i].as_slice()) {
            Ok(nl) => Ok(nl),
            Err(e) => Err(NlError::De),
        };
        out.push(reply);
        i += 1;
    }
    out
}

/// Reads the namespace messages of a datagram, in order.
pub fn read_netns_datagram(order: ByteOrder, b: &[u8]) -> (out: Vec<Result<Nlmsghdr<Netns>, NlError>>)
    ensures
        netns_replies(order, b@, out@),
{
    let mut out: Vec<Result<Nlmsghdr<Netns>, NlError>> = Vec::new();
    let pieces = match split_datagram(order, b) {
        Ok(pieces) => pieces,
        Err(e) => {
            out.push(Err(NlError::De));
            return out;
        },
    };
    let ghost m = messages_of(order, b@)->Some_0;
    let mut i: usize = 0;
    while i < pieces.len()
        invariant
            i <= pieces.len(),
            pieces@.len() == m.len(),
            forall|k: int| 0 <= k < m.len() ==> (#[trigger] pieces@[k])@ == m[k],
            out@.len() == i,
            forall|k: int|
                0 <= k < i ==> match netns_message_of(order, m[k]) {
                    Some(v) => (#[trigger] out@[k]) matches Ok(nl) && netns_message_view(nl) == v
                        && (nl.nl_payload matches NlPayload::Payload(ns) ==> ns.rtattrs.order
                        == order),
                    None => out@[k] == Err::<Nlmsghdr<Netns>, NlError>(NlError::De),
                },
        decreases pieces.len() - i,
    {
        let reply = match Nlmsghdr::<Netns>::from_bytes(order, pieces[i].as_slice()) {
            Ok(nl) => Ok(nl),
            Err(e) => Err(NlError::De),
        };
        out.push(reply);
        i += 1;
    }
    out
}

/// The one reply that a request is owed, out of what was received: the
/// first message, nothing where nothing came, the failure where the
/// first message could not be read.
pub fn first_reply<P>(received: Vec<Result<Nlmsghdr<P>, NlError>>) -> (reply: Reply<P>)
    ensures
        reply == (if received@.len() == 0 {
            Ok(None)
        } else {
            match received@[0] {
                Ok(nl) => Ok(Some(nl)),
                Err(e) => Err(e),
            }
        }),
{
    let mut received = received;
    if received.len() == 0 {
        return Ok(None);
    }
    match received.remove(0) {
        Ok(nl) => Ok(Some(nl)),
        Err(e) => Err(e),
    }
}

impl RTNetlink {
    /// True if one of the replies received so far ends the dump, so that
    /// nothing more is to be received for it.
    pub fn dump_ended(&self, replies: &Vec<Result<Nlmsghdr<Ifinfomsg>, NlError>>) -> (ended: bool)
        ensures
            ended == exists|i: int| 0 <= i < replies@.len() && ends_dump(self.spec_seq(), replies@[i]),
    {
        let seq = match self.get_seq_blocking(false) {
            Ok(seq) => seq,
            Err(e) => 0,
        };
        let mut i: usize = 0;
        while i < replies.len()
            invariant
                i <= replies.len(),
                seq == self.spec_seq(),
                forall|k: int| 0 <= k < i ==> !ends_dump(seq, replies@[k]),
            decreases replies.len() - i,
        {
            let goes_on = match &replies[i] {
                Err(e) => false,
                Ok(nl) => match &nl.nl_payload {
                    NlPayload::Payload(p) => nl.nl_seq == seq && nl.nl_type != NLMSG_DONE,
                    _ => false,
                },
            };
            if !goes_on {
                assert(ends_dump(seq, replies@[i as int]));
                return true;
            }
            i += 1;
        }
        false
    }
}

} // verus!
