//! The envelope of every message: type, flags, sequence number, sender,
//! and what the message carries.

use vstd::prelude::*;

verus! {

/// What a message carries.
#[derive(Debug)]
pub enum NlPayload<P> {
    /// An acknowledgment: the request was carried out.
    Ack,
    /// A rejection by the kernel, with the error number as it stands in
    /// the reply.
    Error { code: i32 },
    /// The body that was asked for.
    Payload(P),
    /// Nothing, as in the marker that ends a dump.
    Empty,
}

/// A message with its header.
#[derive(Debug)]
pub struct Nlmsghdr<P> {
    /// Type of the message.
    pub nl_type: u16,
    /// Flags of the request or reply.
    pub nl_flags: u16,
    /// Sequence number that pairs a reply with its request.
    pub nl_seq: u32,
    /// Port of the sender of a request, of the receiver of a reply.
    pub nl_pid: u32,
    /// What the message carries.
    pub nl_payload: NlPayload<P>,
}

impl<P> Nlmsghdr<P> {
    /// A message with the given header fields and payload.
    pub fn new(nl_type: u16, nl_flags: u16, nl_seq: u32, nl_pid: u32, nl_payload: NlPayload<P>) -> (nl:
        Nlmsghdr<P>)
        ensures
            nl.nl_type == nl_type,
            nl.nl_flags == nl_flags,
            nl.nl_seq == nl_seq,
            nl.nl_pid == nl_pid,
            nl.nl_payload == nl_payload,
    {
        Nlmsghdr { nl_type, nl_flags, nl_seq, nl_pid, nl_payload }
    }
}

} // verus!
