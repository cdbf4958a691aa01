//! The transport's rules: how requests are framed, how replies are paired
//! with them by sequence number, and how the counter advances.  The
//! socket itself is the caller's: each transaction is a request to send
//! and a function that judges what came back.

use vstd::prelude::*;
use crate::attr::{find, AttrList};
use crate::bytes::{i32_bytes, i32_value, u32_bytes, ByteOrder};
use crate::consts::{
    AF_UNSPEC, ARPHRD_NETROM, ENOTRECOVERABLE, EXT_MASK_VALUE, IFLA_EXT_MASK,
    IFLA_IFNAME, IFLA_IF_NETNSID, IFLA_NET_NS_FD, NLMSG_DONE, NLM_F_ACK, NLM_F_ATOMIC,
    NLM_F_MATCH, NLM_F_REQUEST, NLM_F_ROOT, RTM_DELLINK, RTM_GETLINK, RTM_GETNSID, RTM_NEWLINK,
    RTM_NEWNSID,
};
use crate::error::{IoError, NlError};
use crate::netlink::{Ifinfomsg, Interface, NetNSA, Netns};
use crate::nl::{NlPayload, Nlmsghdr};

verus! {

/// What one receive on the socket gave: a message, nothing, or a
/// failure.
pub type Reply<P> = Result<Option<Nlmsghdr<P>>, NlError>;

/// The sequence number after `seq`; the counter wraps at its width.
pub open spec fn next_seq(seq: u32) -> u32 {
    if seq == u32::MAX {
        0
    } else {
        (seq + 1) as u32
    }
}

/// The counter after a transaction that began at `seq`: advanced by one
/// if the transaction succeeded, unchanged if it failed.
pub open spec fn seq_after(seq: u32, succeeded: bool) -> u32 {
    if succeeded {
        next_seq(seq)
    } else {
        seq
    }
}

/// The counter after a run of transactions that began at `seq`, given
/// for each whether it succeeded.
pub open spec fn counter_after(seq: u32, outcomes: Seq<bool>) -> u32
    decreases outcomes.len(),
{
    if outcomes.len() == 0 {
        seq
    } else {
        seq_after(counter_after(seq, outcomes.drop_last()), outcomes.last())
    }
}

/// The number of successes among the outcomes.
pub open spec fn successes(outcomes: Seq<bool>) -> nat
    decreases outcomes.len(),
{
    if outcomes.len() == 0 {
        0
    } else {
        successes(outcomes.drop_last()) + (if outcomes.last() {
            1nat
        } else {
            0nat
        })
    }
}

/// After any mix of transactions on a fresh transport the counter stands
/// at the number of those that succeeded, reduced to the counter's width.
pub proof fn lemma_counter_counts_successes(outcomes: Seq<bool>)
    ensures
        counter_after(0, outcomes) == successes(outcomes) % 0x1_0000_0000,
    decreases outcomes.len(),
{
    if outcomes.len() > 0 {
        lemma_counter_counts_successes(outcomes.drop_last());
    }
}

/// The judgment on the one reply to an acknowledged request: a rejection
/// by the kernel is reported with its number whatever else the reply
/// says; an acknowledgment must carry the request's sequence number; any
/// other reply, or none, is a missing acknowledgment.
pub open spec fn ack_outcome<P>(seq: u32, reply: Reply<P>) -> Result<(), NlError> {
    match reply {
        Err(e) => Err(e),
        Ok(None) => Err(NlError::NoAck),
        Ok(Some(nl)) => match nl.nl_payload {
            NlPayload::Error { code } => Err(NlError::Nlmsgerr { code }),
            NlPayload::Ack => if nl.nl_seq == seq {
                Ok(())
            } else {
                Err(NlError::BadSeq)
            },
            _ => Err(NlError::NoAck),
        },
    }
}

/// The judgment on the one reply to a request that asks for a body: a
/// rejection by the kernel is reported with its number whatever else the
/// reply says; otherwise the reply must carry the request's sequence
/// number and a body.
pub open spec fn payload_outcome<P>(seq: u32, reply: Reply<P>) -> Result<P, NlError> {
    match reply {
        Err(e) => Err(e),
        Ok(None) => Err(NlError::NoAck),
        Ok(Some(nl)) => match nl.nl_payload {
            NlPayload::Error { code } => Err(NlError::Nlmsgerr { code }),
            NlPayload::Payload(p) => if nl.nl_seq == seq {
                Ok(p)
            } else {
                Err(NlError::BadSeq)
            },
            _ => if nl.nl_seq == seq {
                Err(NlError::Io { errno: ENOTRECOVERABLE })
            } else {
                Err(NlError::BadSeq)
            },
        },
    }
}

/// The namespace id that a reply body states: its first id attribute,
/// where a negative number says that none is assigned.
pub open spec fn nsid_of(ns: Netns) -> Result<Option<i32>, NlError> {
    match find(ns.rtattrs@, NetNSA::NSid.spec_value()) {
        Some(p) if p.len() == 4 => {
            let id = i32_value(ns.rtattrs.order, p);
            if id < 0 {
                Ok(None)
            } else {
                Ok(Some(id))
            }
        },
        _ => Err(NlError::De),
    }
}

/// The judgment on the reply to a namespace-id query.
pub open spec fn nsid_outcome(seq: u32, reply: Reply<Netns>) -> Result<Option<i32>, NlError> {
    match payload_outcome(seq, reply) {
        Ok(ns) => nsid_of(ns),
        Err(e) => Err(e),
    }
}

/// What one message of a dump means.
#[derive(Debug)]
pub enum DumpStep {
    /// One more interface of the dump.
    Item(Interface),
    /// The marker that ends the dump.
    Done,
}

/// The judgment on one message of a dump.
pub open spec fn dump_step_outcome(seq: u32, reply: Result<Nlmsghdr<Ifinfomsg>, NlError>) -> Result<
    DumpStep,
    NlError,
> {
    match reply {
        Err(e) => Err(e),
        Ok(nl) => match nl.nl_payload {
            NlPayload::Error { code } => Err(NlError::Nlmsgerr { code }),
            NlPayload::Payload(p) => if nl.nl_seq != seq {
                Err(NlError::BadSeq)
            } else if nl.nl_type == NLMSG_DONE {
                Ok(DumpStep::Done)
            } else {
                Ok(DumpStep::Item(Interface(p)))
            },
            _ => if nl.nl_seq != seq {
                Err(NlError::BadSeq)
            } else if nl.nl_type == NLMSG_DONE {
                Ok(DumpStep::Done)
            } else {
                Err(NlError::Io { errno: ENOTRECOVERABLE })
            },
        },
    }
}

/// `head` put before the interfaces of a successful rest.
pub open spec fn prepend(head: Seq<Interface>, rest: Result<Seq<Interface>, NlError>) -> Result<
    Seq<Interface>,
    NlError,
> {
    match rest {
        Ok(items) => Ok(head + items),
        Err(e) => Err(e),
    }
}

/// The judgment on the messages of a dump, in the order received: the
/// interfaces up to the end marker, in that order, or the first failure.
/// Messages after the marker are not looked at.
pub open spec fn dump_outcome(seq: u32, replies: Seq<Result<Nlmsghdr<Ifinfomsg>, NlError>>) -> Result<
    Seq<Interface>,
    NlError,
>
    decreases replies.len(),
{
    if replies.len() == 0 {
        Ok(Seq::<Interface>::empty())
    } else {
        match dump_step_outcome(seq, replies[0]) {
            Err(e) => Err(e),
            Ok(DumpStep::Done) => Ok(Seq::<Interface>::empty()),
            Ok(DumpStep::Item(i)) => prepend(seq![i], dump_outcome(seq, replies.skip(1))),
        }
    }
}

/// How an attempt to take the lock on the counter ended.
#[derive(Clone, Copy, Debug, PartialEq, Eq, Structural)]
pub enum LockOutcome {
    /// The lock is held by the caller.
    Acquired,
    /// Another transaction holds the lock.
    WouldBlock,
    /// A holder of the lock died.
    Poisoned,
}

/// The state of one transport: the sequence counter and the port that
/// its requests name as their sender.  Whoever holds it mutably holds the
/// transport alone, for the whole of a transaction.
#[derive(Debug)]
pub struct RTNetlink {
    seq: u32,
    pid: u32,
}

impl RTNetlink {
    /// The current value of the sequence counter.
    pub closed spec fn spec_seq(&self) -> u32 {
        self.seq
    }

    /// The port that requests name as their sender.
    pub closed spec fn spec_pid(&self) -> u32 {
        self.pid
    }

    /// A fresh transport for the process with port `pid`; its counter
    /// starts at 0.
    pub fn new(pid: u32) -> (nl: RTNetlink)
        ensures
            nl.spec_seq() == 0,
            nl.spec_pid() == pid,
    {
        RTNetlink { seq: 0, pid }
    }

    /// A fresh transport for the process that runs this code: its
    /// requests name the process id as their sender.
    pub fn for_this_process() -> (nl: RTNetlink)
        ensures
            nl.spec_seq() == 0,
    {
        RTNetlink::for_process(this_pid())
    }

    /// A fresh transport for the process with the id `pid`: its counter
    /// starts at 0 and its requests name, as their sender, the port with
    /// the same 32 bits as the id.
    pub fn for_process(pid: i32) -> (nl: RTNetlink)
        ensures
            nl.spec_seq() == 0,
            nl.spec_pid() == crate::bytes::i32_bits(pid),
    {
        let port: u32 = if pid >= 0 {
            pid as u32
        } else {
            ((pid as i64) + 0x1_0000_0000i64) as u32
        };
        RTNetlink::new(port)
    }

    /// The port that requests name as their sender.
    pub fn pid(&self) -> (pid: u32)
        ensures
            pid == self.spec_pid(),
    {
        self.pid
    }

    /// The current sequence number, given how an attempt to take the lock
    /// without waiting ended.
    pub fn get_seq(&self, lock: LockOutcome) -> (r: Result<u32, IoError>)
        ensures
            r == (match lock {
                LockOutcome::Acquired => Ok(self.spec_seq()),
                LockOutcome::WouldBlock => Err(IoError::LockBusy),
                LockOutcome::Poisoned => Err(IoError::LockPoisoned),
            }),
    {
        match lock {
            LockOutcome::Acquired => Ok(self.seq),
            LockOutcome::WouldBlock => Err(IoError::LockBusy),
            LockOutcome::Poisoned => Err(IoError::LockPoisoned),
        }
    }

    /// The current sequence number, given whether the lock that was
    /// waited for turned out to be poisoned.
    pub fn get_seq_blocking(&self, poisoned: bool) -> (r: Result<u32, IoError>)
        ensures
            r == (if poisoned {
                Err(IoError::LockPoisoned)
            } else {
                Ok(self.spec_seq())
            }),
    {
        if poisoned {
            Err(IoError::LockPoisoned)
        } else {
            Ok(self.seq)
        }
    }

    /// Ends a transaction: the counter advances by one if it succeeded.
    fn finish(&mut self, succeeded: bool)
        ensures
            final(self).spec_seq() == seq_after(old(self).spec_seq(), succeeded),
            final(self).spec_pid() == old(self).spec_pid(),
    {
        if succeeded {
            self.seq = if self.seq == u32::MAX {
                0
            } else {
                self.seq + 1
            };
        }
    }

    /// Judges the one reply to an acknowledged request and ends the
    /// transaction.
    pub fn acknowledge<P>(&mut self, reply: Reply<P>) -> (r: Result<(), NlError>)
        ensures
            r == ack_outcome(old(self).spec_seq(), reply),
            final(self).spec_seq() == seq_after(old(self).spec_seq(), r is Ok),
            final(self).spec_pid() == old(self).spec_pid(),
    {
        let r = judge_ack(self.seq, reply);
        self.finish(r.is_ok());
        r
    }

    /// Judges the one reply to a request that asks for a body and ends
    /// the transaction.
    pub fn take_payload<P>(&mut self, reply: Reply<P>) -> (r: Result<P, NlError>)
        ensures
            r == payload_outcome(old(self).spec_seq(), reply),
            final(self).spec_seq() == seq_after(old(self).spec_seq(), r is Ok),
            final(self).spec_pid() == old(self).spec_pid(),
    {
        let r = judge_payload(self.seq, reply);
        self.finish(r.is_ok());
        r
    }

    /// The envelope of a request of this transport: the current sequence
    /// number and the transport's port.
    fn envelope<P>(&self, nl_type: u16, nl_flags: u16, body: P) -> (nl: Nlmsghdr<P>)
        ensures
            is_request(nl, nl_type, nl_flags, self.spec_seq(), self.spec_pid()),
            nl.nl_payload == NlPayload::Payload(body),
    {
        Nlmsghdr::new(nl_type, nl_flags, self.seq, self.pid, NlPayload::Payload(body))
    }

    // -- Network namespaces --
    /// The query for the id of the namespace that the descriptor `fd`
    /// refers to.
    pub fn get_nsid_fd_request(&self, fd: i32) -> (nl: Nlmsghdr<Netns>)
        ensures
            is_request(nl, RTM_GETNSID, NLM_F_REQUEST, self.spec_seq(), self.spec_pid()),
            nl.nl_payload matches NlPayload::Payload(ns) && ns.rtgen_family == AF_UNSPEC
                && ns.rtattrs@ == seq![(NetNSA::FD.spec_value(), i32_bytes(ns.rtattrs.order, fd))],
    {
        let mut attrs = AttrList::new();
        attrs.put_i32(NetNSA::FD.value(), fd);
        assert(attrs@ =~= seq![(NetNSA::FD.spec_value(), i32_bytes(attrs.order, fd))]);
        self.envelope(RTM_GETNSID, NLM_F_REQUEST, Netns::new(AF_UNSPEC, attrs))
    }

    /// Judges the reply to a namespace-id query: the id that the reply
    /// states, where a negative one means that none is assigned.
    pub fn get_nsid_fd(&mut self, reply: Reply<Netns>) -> (r: Result<Option<i32>, NlError>)
        ensures
            r == nsid_outcome(old(self).spec_seq(), reply),
            final(self).spec_seq() == seq_after(old(self).spec_seq(), r is Ok),
            final(self).spec_pid() == old(self).spec_pid(),
    {
        let r = match judge_payload(self.seq, reply) {
            Ok(ns) => match ns.get_id() {
                Ok(id) => if id < 0 {
                    Ok(None)
                } else {
                    Ok(Some(id))
                },
                Err(e) => Err(NlError::De),
            },
            Err(e) => Err(e),
        };
        self.finish(r.is_ok());
        r
    }

    /// The request that assigns an id to a namespace.
    pub fn create_nsid_request(&self, ns: Netns) -> (nl: Nlmsghdr<Netns>)
        ensures
            is_request(nl, RTM_NEWNSID, NLM_F_ACK, self.spec_seq(), self.spec_pid()),
            nl.nl_payload == NlPayload::Payload(ns),
    {
        self.envelope(RTM_NEWNSID, NLM_F_ACK, ns)
    }

    /// Judges the reply to the assignment of a namespace id.
    pub fn create_nsid(&mut self, reply: Reply<Netns>) -> (r: Result<(), NlError>)
        ensures
            r == ack_outcome(old(self).spec_seq(), reply),
            final(self).spec_seq() == seq_after(old(self).spec_seq(), r is Ok),
            final(self).spec_pid() == old(self).spec_pid(),
    {
        self.acknowledge(reply)
    }

    // -- Interfaces --
    /// The attributes of a link query.
    fn query(dev: Option<&str>, nsid: Option<i32>) -> (attrs: AttrList)
        ensures
            attrs@ == query_attrs(
                attrs.order,
                match dev {
                    Some(d) => Some(d@),
                    None => None,
                },
                nsid,
            ),
    {
        let mut attrs = AttrList::new();
        if let Some(d) = dev {
            attrs.put_str(IFLA_IFNAME, d);
        }
        attrs.put_u32(IFLA_EXT_MASK, EXT_MASK_VALUE);
        if let Some(id) = nsid {
            attrs.put_i32(IFLA_IF_NETNSID, id);
        }
        assert(attrs@ =~= query_attrs(
            attrs.order,
            match dev {
                Some(d) => Some(d@),
                None => None,
            },
            nsid,
        ));
        attrs
    }

    /// The request that lists the interfaces, of this namespace or of the
    /// one that `nsid` names.
    pub fn get_interfaces_request(&self, nsid: Option<i32>) -> (nl: Nlmsghdr<Ifinfomsg>)
        ensures
            is_request(
                nl,
                RTM_GETLINK,
                NLM_F_REQUEST | NLM_F_ROOT | NLM_F_MATCH,
                self.spec_seq(),
                self.spec_pid(),
            ),
            nl.nl_payload matches NlPayload::Payload(msg) && msg.is_request_header(0)
                && msg.rtattrs@ == query_attrs(msg.rtattrs.order, None, nsid),
    {
        let msg = Ifinfomsg::new(AF_UNSPEC, ARPHRD_NETROM, 0, 0, 0, RTNetlink::query(None, nsid));
        self.envelope(RTM_GETLINK, NLM_F_REQUEST | NLM_F_ROOT | NLM_F_MATCH, msg)
    }

    /// Judges one message of a dump.  The transaction goes on after an
    /// item and is over after the end marker or a failure.
    pub fn dump_step(&self, reply: Result<Nlmsghdr<Ifinfomsg>, NlError>) -> (r: Result<
        DumpStep,
        NlError,
    >)
        ensures
            r == dump_step_outcome(self.spec_seq(), reply),
    {
        judge_dump_step(self.seq, reply)
    }

    /// Ends a dump whose messages were judged one by one.
    pub fn finish_dump(&mut self, succeeded: bool)
        ensures
            final(self).spec_seq() == seq_after(old(self).spec_seq(), succeeded),
            final(self).spec_pid() == old(self).spec_pid(),
    {
        self.finish(succeeded)
    }

    /// Judges the messages of a dump, in the order received, and ends the
    /// transaction: the interfaces in the kernel's order, or the first
    /// failure.
    pub fn get_interfaces(&mut self, replies: Vec<Result<Nlmsghdr<Ifinfomsg>, NlError>>) -> (r:
        Result<Vec<Interface>, NlError>)
        ensures
            match dump_outcome(old(self).spec_seq(), replies@) {
                Ok(items) => r matches Ok(v) && v@ == items,
                Err(e) => r is Err && r->Err_0 == e,
            },
            final(self).spec_seq() == seq_after(old(self).spec_seq(), r is Ok),
            final(self).spec_pid() == old(self).spec_pid(),
    {
        let ghost all = replies@;
        let mut replies = replies;
        let mut ret: Vec<Interface> = Vec::new();
        let mut failure: Option<NlError> = None;
        while replies.len() > 0
            invariant_except_break
                failure is None,
                dump_outcome(self.spec_seq(), all) == prepend(
                    ret@,
                    dump_outcome(self.spec_seq(), replies@),
                ),
            invariant
                self.spec_seq() == old(self).spec_seq(),
                self.spec_pid() == old(self).spec_pid(),
            ensures
                self.spec_seq() == old(self).spec_seq(),
                self.spec_pid() == old(self).spec_pid(),
                match failure {
                    Some(e) => dump_outcome(self.spec_seq(), all) == Err::<Seq<Interface>, NlError>(e),
                    None => dump_outcome(self.spec_seq(), all) == Ok::<Seq<Interface>, NlError>(
                        ret@,
                    ),
                },
            decreases replies.len(),
        {
            let ghost before = replies@;
            let ghost head = ret@;
            assert(head + Seq::<Interface>::empty() =~= head);
            let reply = replies.remove(0);
            assert(replies@ =~= before.skip(1));
            assert(reply == before[0]);
            match judge_dump_step(self.seq, reply) {
                Err(e) => {
                    failure = Some(e);
                    break;
                },
                Ok(DumpStep::Done) => {
                    assert(head + Seq::<Interface>::empty() =~= head);
                    break;
                },
                Ok(DumpStep::Item(i)) => {
                    ret.push(i);
                    assert(ret@ =~= head + seq![i]);
                    assert(forall|rest: Seq<Interface>| head + (seq![i] + rest) =~= (head + seq![i])
                        + rest);
                },
            }
        }
        match failure {
            Some(e) => {
                self.finish(false);
                Err(e)
            },
            None => {
                self.finish(true);
                Ok(ret)
            },
        }
    }

    /// The request for the one interface named `dev`, in this namespace
    /// or in the one that `nsid` names.
    pub fn get_interface_request(&self, dev: &str, nsid: Option<i32>) -> (nl: Nlmsghdr<Ifinfomsg>)
        ensures
            is_request(nl, RTM_GETLINK, NLM_F_REQUEST, self.spec_seq(), self.spec_pid()),
            nl.nl_payload matches NlPayload::Payload(msg) && msg.is_request_header(0)
                && msg.rtattrs@ == query_attrs(msg.rtattrs.order, Some(dev@), nsid),
    {
        let msg = Ifinfomsg::new(
            AF_UNSPEC,
            ARPHRD_NETROM,
            0,
            0,
            0,
            RTNetlink::query(Some(dev), nsid),
        );
        self.envelope(RTM_GETLINK, NLM_F_REQUEST, msg)
    }

    /// Judges the reply to the request for one interface.
    pub fn get_interface(&mut self, reply: Reply<Ifinfomsg>) -> (r: Result<Interface, NlError>)
        ensures
            r == (match payload_outcome(old(self).spec_seq(), reply) {
                Ok(msg) => Ok(Interface(msg)),
                Err(e) => Err(e),
            }),
            final(self).spec_seq() == seq_after(old(self).spec_seq(), r is Ok),
            final(self).spec_pid() == old(self).spec_pid(),
    {
        match self.take_payload(reply) {
            Ok(msg) => Ok(Interface(msg)),
            Err(e) => Err(e),
        }
    }

    /// The request that creates the interface that `interface` describes.
    pub fn create_interface_request(&self, interface: Interface) -> (nl: Nlmsghdr<Ifinfomsg>)
        ensures
            is_request(
                nl,
                RTM_NEWLINK,
                NLM_F_REQUEST | NLM_F_ACK | NLM_F_MATCH | NLM_F_ATOMIC,
                self.spec_seq(),
                self.spec_pid(),
            ),
            nl.nl_payload == NlPayload::Payload(interface.0),
    {
        self.envelope(
            RTM_NEWLINK,
            NLM_F_REQUEST | NLM_F_ACK | NLM_F_MATCH | NLM_F_ATOMIC,
            interface.0,
        )
    }

    /// Judges the reply to the creation of an interface.
    pub fn create_interface(&mut self, reply: Reply<Ifinfomsg>) -> (r: Result<(), NlError>)
        ensures
            r == ack_outcome(old(self).spec_seq(), reply),
            final(self).spec_seq() == seq_after(old(self).spec_seq(), r is Ok),
            final(self).spec_pid() == old(self).spec_pid(),
    {
        self.acknowledge(reply)
    }

    /// The request that moves the interface with index `dev` into the
    /// namespace that the descriptor `fd` refers to.
    pub fn set_interface_ns_fd_request(&self, dev: u32, fd: i32) -> (nl: Nlmsghdr<Ifinfomsg>)
        ensures
            is_request(
                nl,
                RTM_NEWLINK,
                NLM_F_REQUEST | NLM_F_ACK,
                self.spec_seq(),
                self.spec_pid(),
            ),
            nl.nl_payload matches NlPayload::Payload(msg) && msg.is_request_header(
                crate::bytes::bits_i32(dev),
            ) && msg.rtattrs@ == seq![(IFLA_NET_NS_FD, i32_bytes(msg.rtattrs.order, fd))],
    {
        let mut attrs = AttrList::new();
        attrs.put_i32(IFLA_NET_NS_FD, fd);
        assert(attrs@ =~= seq![(IFLA_NET_NS_FD, i32_bytes(attrs.order, fd))]);
        let index: i32 = if dev < 0x8000_0000 {
            dev as i32
        } else {
            ((dev as i64) - 0x1_0000_0000i64) as i32
        };
        let msg = Ifinfomsg::new(AF_UNSPEC, ARPHRD_NETROM, index, 0, 0, attrs);
        self.envelope(RTM_NEWLINK, NLM_F_REQUEST | NLM_F_ACK, msg)
    }

    /// Judges the reply to the move of an interface.
    pub fn set_interface_ns_fd(&mut self, reply: Reply<Ifinfomsg>) -> (r: Result<(), NlError>)
        ensures
            r == ack_outcome(old(self).spec_seq(), reply),
            final(self).spec_seq() == seq_after(old(self).spec_seq(), r is Ok),
            final(self).spec_pid() == old(self).spec_pid(),
    {
        self.acknowledge(reply)
    }

    /// The request that deletes `interface`, which is named by the index
    /// that it carries.
    pub fn delete_interface_request(&self, interface: Interface) -> (nl: Nlmsghdr<Ifinfomsg>)
        ensures
            is_request(
                nl,
                RTM_DELLINK,
                NLM_F_REQUEST | NLM_F_ACK | NLM_F_MATCH | NLM_F_ATOMIC,
                self.spec_seq(),
                self.spec_pid(),
            ),
            nl.nl_payload == NlPayload::Payload(interface.0),
    {
        self.envelope(
            RTM_DELLINK,
            NLM_F_REQUEST | NLM_F_ACK | NLM_F_MATCH | NLM_F_ATOMIC,
            interface.0,
        )
    }

    /// Judges the reply to the deletion of an interface.
    pub fn delete_interface(&mut self, reply: Reply<Ifinfomsg>) -> (r: Result<(), NlError>)
        ensures
            r == ack_outcome(old(self).spec_seq(), reply),
            final(self).spec_seq() == seq_after(old(self).spec_seq(), r is Ok),
            final(self).spec_pid() == old(self).spec_pid(),
    {
        self.acknowledge(reply)
    }
}

/// The id of the process that runs this code, as `Pid::this` of nix
/// reports it.  Nothing is claimed of the number.
#[verifier::external_body]
fn this_pid() -> i32 {
    nix::unistd::Pid::this().as_raw()
}

/// True if the header of `nl` holds the given fields.
pub open spec fn is_request<P>(nl: Nlmsghdr<P>, nl_type: u16, nl_flags: u16, seq: u32, pid: u32) -> bool {
    &&& nl.nl_type == nl_type
    &&& nl.nl_flags == nl_flags
    &&& nl.nl_seq == seq
    &&& nl.nl_pid == pid
}

/// The attributes of a link query: the name, where one interface is
/// asked for; the mask that asks for extended information; the id of the
/// namespace to look in, where it is not the caller's own.
pub open spec fn query_attrs(order: ByteOrder, dev: Option<Seq<char>>, nsid: Option<i32>) -> Seq<
    (u16, Seq<u8>),
> {
    (match dev {
        Some(d) => seq![(IFLA_IFNAME, crate::attr::str_payload(d))],
        None => Seq::<(u16, Seq<u8>)>::empty(),
    }) + seq![(IFLA_EXT_MASK, u32_bytes(order, EXT_MASK_VALUE))] + (match nsid {
        Some(id) => seq![(IFLA_IF_NETNSID, i32_bytes(order, id))],
        None => Seq::<(u16, Seq<u8>)>::empty(),
    })
}

/// Judges the one reply to an acknowledged request that was sent with
/// the sequence number `seq`.
pub fn judge_ack<P>(seq: u32, reply: Reply<P>) -> (r: Result<(), NlError>)
    ensures
        r == ack_outcome(seq, reply),
{
    match reply {
        Err(e) => Err(e),
        Ok(None) => Err(NlError::NoAck),
        Ok(Some(nl)) => match nl.nl_payload {
            NlPayload::Error { code } => Err(NlError::Nlmsgerr { code }),
            NlPayload::Ack => if nl.nl_seq == seq {
                Ok(())
            } else {
                Err(NlError::BadSeq)
            },
            _ => Err(NlError::NoAck),
        },
    }
}

/// Judges the one reply to a request for a body that was sent with the
/// sequence number `seq`.
pub fn judge_payload<P>(seq: u32, reply: Reply<P>) -> (r: Result<P, NlError>)
    ensures
        r == payload_outcome(seq, reply),
{
    match reply {
        Err(e) => Err(e),
        Ok(None) => Err(NlError::NoAck),
        Ok(Some(nl)) => {
            let matches_seq = nl.nl_seq == seq;
            match nl.nl_payload {
                NlPayload::Error { code } => Err(NlError::Nlmsgerr { code }),
                NlPayload::Payload(p) => if matches_seq {
                    Ok(p)
                } else {
                    Err(NlError::BadSeq)
                },
                _ => if matches_seq {
                    Err(NlError::Io { errno: ENOTRECOVERABLE })
                } else {
                    Err(NlError::BadSeq)
                },
            }
        },
    }
}

/// Judges one message of a dump that was asked for with the sequence
/// number `seq`.
pub fn judge_dump_step(seq: u32, reply: Result<Nlmsghdr<Ifinfomsg>, NlError>) -> (r: Result<
    DumpStep,
    NlError,
>)
    ensures
        r == dump_step_outcome(seq, reply),
{
    match reply {
        Err(e) => Err(e),
        Ok(nl) => {
            let matches_seq = nl.nl_seq == seq;
            let done = nl.nl_type == NLMSG_DONE;
            match nl.nl_payload {
                NlPayload::Error { code } => Err(NlError::Nlmsgerr { code }),
                NlPayload::Payload(p) => if !matches_seq {
                    Err(NlError::BadSeq)
                } else if done {
                    Ok(DumpStep::Done)
                } else {
                    Ok(DumpStep::Item(Interface(p)))
                },
                _ => if !matches_seq {
                    Err(NlError::BadSeq)
                } else if done {
                    Ok(DumpStep::Done)
                } else {
                    Err(NlError::Io { errno: ENOTRECOVERABLE })
                },
            }
        },
    }
}

} // verus!
