//! The link operations: each is a request to hand to the transport and a
//! judgment on what came back, with failures translated for the caller.
//! Operations on a namespace file follow the order open, use, close.

use vstd::prelude::*;
use vstd::string::StringExecFns;
use crate::consts::IP_NETNS_PATH;
use crate::error::{nl_error_to_io, nl_error_to_io_spec, IoError, NlError};
use crate::links::Interface;
use crate::netlink::{Ifinfomsg, Netns};
use crate::nl::{NlPayload, Nlmsghdr};
use crate::rtnetlink::{
    ack_outcome, dump_outcome, is_request, nsid_outcome, payload_outcome, query_attrs, seq_after,
    RTNetlink, Reply,
};

verus! {

/// A transport result as the caller of a link operation sees it.
pub open spec fn translated<T>(r: Result<T, NlError>) -> Result<T, IoError> {
    match r {
        Ok(v) => Ok(v),
        Err(e) => Err(nl_error_to_io_spec(e)),
    }
}

/// The result of an operation on an open descriptor, once the descriptor
/// was closed: the operation's own failure comes first; a failure to
/// close is reported only where the operation succeeded.
pub open spec fn after_close<T>(primary: Result<T, IoError>, closed: Result<(), IoError>) -> Result<
    T,
    IoError,
> {
    match primary {
        Err(e) => Err(e),
        Ok(v) => match closed {
            Ok(_) => Ok(v),
            Err(e) => Err(e),
        },
    }
}

/// The descriptors that are open once the file was opened, or was not,
/// given those that were open before.
pub open spec fn open_after_opening(open: Set<int>, outcome: Result<i32, IoError>) -> Set<int> {
    match outcome {
        Ok(fd) => open.insert(fd as int),
        Err(_) => open,
    }
}

/// The descriptors that are open once `fd` was closed.
pub open spec fn open_after_closing(open: Set<int>, fd: i32) -> Set<int> {
    open.remove(fd as int)
}

/// An operation on a namespace file leaves the descriptors of the process
/// as it found them: the descriptor that it names for closing is the one
/// that was opened, so that after the closing the open descriptors are
/// those from before; where the file could not be opened, none was added.
/// This holds whatever the operation on the descriptor gave.
pub proof fn lemma_descriptor_is_released<T>(
    open: Set<int>,
    outcome: Result<i32, IoError>,
    state: Scoped<T>,
    primary: Result<T, IoError>,
)
    requires
        outcome matches Ok(fd) ==> !open.contains(fd as int) && state == (Scoped::<T>::Using { fd }),
    ensures
        match outcome {
            Ok(fd) => {
                let closing = Scoped::<T>::Closing { fd: state->Using_fd, primary };
                open_after_closing(open_after_opening(open, outcome), closing->Closing_fd) == open
            },
            Err(_) => open_after_opening(open, outcome) == open,
        },
{
    if let Ok(fd) = outcome {
        assert(open.insert(fd as int).remove(fd as int) =~= open);
    }
}

/// Where an operation on a namespace file stands.
#[derive(Debug)]
pub enum Scoped<T> {
    /// The file is to be opened.
    Opening,
    /// The descriptor `fd` is open and the operation is to be run.
    Using { fd: i32 },
    /// The operation has ended with `primary`; `fd` is to be closed.
    Closing { fd: i32, primary: Result<T, IoError> },
}

/// What to do next in an operation on a namespace file.
#[derive(Debug)]
pub enum ScopedStep {
    /// Run the operation on the descriptor.
    Use { fd: i32 },
    /// The file could not be opened: give up with this failure.  No
    /// descriptor is open.
    Fail { error: IoError },
}

impl<T> Scoped<T> {
    /// The start of an operation: the file is to be opened read-only.
    pub fn begin() -> (s: Scoped<T>)
        ensures
            s is Opening,
    {
        Scoped::Opening
    }

    /// Takes the outcome of opening the file.
    pub fn opened(self, outcome: Result<i32, IoError>) -> (r: (Scoped<T>, ScopedStep))
        requires
            self is Opening,
        ensures
            match outcome {
                Ok(fd) => r.0 == (Scoped::<T>::Using { fd }) && r.1 == (ScopedStep::Use { fd }),
                Err(error) => r.0 is Opening && r.1 == (ScopedStep::Fail { error }),
            },
    {
        match outcome {
            Ok(fd) => (Scoped::Using { fd }, ScopedStep::Use { fd }),
            Err(error) => (Scoped::Opening, ScopedStep::Fail { error }),
        }
    }

    /// Takes the result of the operation, whatever it is, and names the
    /// descriptor to close.
    pub fn used(self, primary: Result<T, IoError>) -> (r: (Scoped<T>, i32))
        requires
            self is Using,
        ensures
            r.0 == (Scoped::Closing { fd: self->Using_fd, primary }),
            r.1 == self->Using_fd,
    {
        match self {
            Scoped::Using { fd } => (Scoped::Closing { fd, primary }, fd),
            _ => vstd::pervasive::unreached(),
        }
    }

    /// Takes the outcome of closing the descriptor and gives the result of
    /// the whole.
    pub fn closed(self, outcome: Result<(), IoError>) -> (r: Result<T, IoError>)
        requires
            self is Closing,
        ensures
            r == after_close(self->Closing_primary, outcome),
    {
        match self {
            Scoped::Closing { fd, primary } => match primary {
                Err(e) => Err(e),
                Ok(v) => match outcome {
                    Ok(_) => Ok(v),
                    Err(e) => Err(e),
                },
            },
            _ => vstd::pervasive::unreached(),
        }
    }
}

/// The path of the namespace file of the namespace named `name`: the
/// name appended to the runtime directory of namespaces.
pub fn netns_path(name: &str) -> (path: String)
    ensures
        path@ == IP_NETNS_PATH@ + "/"@ + name@,
{
    let mut path = String::from_str(IP_NETNS_PATH);
    path.append("/");
    path.append(name);
    path
}

/// The link operations over one transport.
#[derive(Debug)]
pub struct LinkTool {
    sys: RTNetlink,
    netns_path: Option<String>,
}

impl LinkTool {
    /// The transport under the operations.
    pub closed spec fn spec_sys(&self) -> RTNetlink {
        self.sys
    }

    /// The path of the namespace that was entered last, if any.
    pub closed spec fn spec_netns_path(&self) -> Option<String> {
        self.netns_path
    }

    /// The current value of the transport's sequence counter.
    pub open spec fn spec_seq(&self) -> u32 {
        self.spec_sys().spec_seq()
    }

    /// True if `after` is this tool after a transaction that ended as
    /// `succeeded` says: the counter moved on by one or stayed, and
    /// nothing else changed.
    pub open spec fn stepped(&self, after: &LinkTool, succeeded: bool) -> bool {
        &&& after.spec_seq() == seq_after(self.spec_seq(), succeeded)
        &&& after.spec_sys().spec_pid() == self.spec_sys().spec_pid()
        &&& after.spec_netns_path() == self.spec_netns_path()
    }

    /// The operations over a fresh transport for the process with port
    /// `pid`.
    pub fn new(pid: u32) -> (tool: LinkTool)
        ensures
            tool.spec_seq() == 0,
            tool.spec_sys().spec_pid() == pid,
            tool.spec_netns_path() is None,
    {
        LinkTool { sys: RTNetlink::new(pid), netns_path: None }
    }

    /// The operations over a fresh transport for the process that runs
    /// this code.
    pub fn for_this_process() -> (tool: LinkTool)
        ensures
            tool.spec_seq() == 0,
            tool.spec_netns_path() is None,
    {
        LinkTool { sys: RTNetlink::for_this_process(), netns_path: None }
    }

    /// The transport, for the requests that have no operation of their
    /// own here.
    pub fn get_inner(&self) -> (sys: &RTNetlink)
        ensures
            *sys == self.spec_sys(),
    {
        &self.sys
    }

    /// The transport, for ending by hand a transaction that was judged
    /// message by message.
    pub fn get_inner_mut(&mut self) -> (sys: &mut RTNetlink)
        ensures
            *sys == old(self).spec_sys(),
            final(self).spec_sys() == *final(sys),
            final(self).spec_netns_path() == old(self).spec_netns_path(),
    {
        &mut self.sys
    }

    /// The path of the namespace that was entered last.
    pub fn entered_netns(&self) -> (path: &Option<String>)
        ensures
            *path == self.spec_netns_path(),
    {
        &self.netns_path
    }

    /// The request that creates the interface that `interface` describes.
    pub fn create_interface_request(&self, interface: Interface) -> (nl: Nlmsghdr<Ifinfomsg>)
        ensures
            is_request(
                nl,
                crate::consts::RTM_NEWLINK,
                crate::consts::NLM_F_REQUEST | crate::consts::NLM_F_ACK | crate::consts::NLM_F_MATCH
                    | crate::consts::NLM_F_ATOMIC,
                self.spec_seq(),
                self.spec_sys().spec_pid(),
            ),
            nl.nl_payload == NlPayload::Payload(interface.interface.0),
    {
        self.sys.create_interface_request(interface.interface)
    }

    /// Judges the reply to the creation of an interface.
    pub fn create_interface(&mut self, reply: Reply<Ifinfomsg>) -> (r: Result<(), IoError>)
        ensures
            r == translated(ack_outcome(old(self).spec_seq(), reply)),
            old(self).stepped(final(self), r is Ok),
    {
        match self.sys.create_interface(reply) {
            Ok(()) => Ok(()),
            Err(e) => Err(nl_error_to_io(e)),
        }
    }

    /// The request that lists the interfaces of the caller's namespace.
    pub fn get_interfaces_request(&self) -> (nl: Nlmsghdr<Ifinfomsg>)
        ensures
            is_request(
                nl,
                crate::consts::RTM_GETLINK,
                crate::consts::NLM_F_REQUEST | crate::consts::NLM_F_ROOT | crate::consts::NLM_F_MATCH,
                self.spec_seq(),
                self.spec_sys().spec_pid(),
            ),
            nl.nl_payload matches NlPayload::Payload(msg) && msg.is_request_header(0)
                && msg.rtattrs@ == query_attrs(msg.rtattrs.order, None, None),
    {
        self.get_interfaces_ns_request(None)
    }

    /// The request that lists the interfaces of the caller's namespace,
    /// or of the one that `nsid` names.
    pub fn get_interfaces_ns_request(&self, nsid: Option<i32>) -> (nl: Nlmsghdr<Ifinfomsg>)
        ensures
            is_request(
                nl,
                crate::consts::RTM_GETLINK,
                crate::consts::NLM_F_REQUEST | crate::consts::NLM_F_ROOT | crate::consts::NLM_F_MATCH,
                self.spec_seq(),
                self.spec_sys().spec_pid(),
            ),
            nl.nl_payload matches NlPayload::Payload(msg) && msg.is_request_header(0)
                && msg.rtattrs@ == query_attrs(msg.rtattrs.order, None, nsid),
    {
        self.sys.get_interfaces_request(nsid)
    }

    /// Judges the messages of a listing of the caller's namespace.
    pub fn get_interfaces(&mut self, replies: Vec<Result<Nlmsghdr<Ifinfomsg>, NlError>>) -> (r:
        Result<Vec<Interface>, IoError>)
        ensures
            listed(dump_outcome(old(self).spec_seq(), replies@), r),
            old(self).stepped(final(self), r is Ok),
    {
        self.get_interfaces_ns(replies)
    }

    /// Judges the messages of a listing: the interfaces in the order in
    /// which the kernel sent them, or the first failure.
    pub fn get_interfaces_ns(&mut self, replies: Vec<Result<Nlmsghdr<Ifinfomsg>, NlError>>) -> (r:
        Result<Vec<Interface>, IoError>)
        ensures
            listed(dump_outcome(old(self).spec_seq(), replies@), r),
            old(self).stepped(final(self), r is Ok),
    {
        let interfaces = match self.sys.get_interfaces(replies) {
            Ok(interfaces) => interfaces,
            Err(e) => {
                return Err(nl_error_to_io(e));
            },
        };
        let ghost items = interfaces@;
        let mut interfaces = interfaces;
        let mut result: Vec<Interface> = Vec::new();
        while interfaces.len() > 0
            invariant
                result@.len() + interfaces@.len() == items.len(),
                forall|i: int| 0 <= i < result@.len() ==> (#[trigger] result@[i]).interface == items[i],
                forall|i: int|
                    0 <= i < interfaces@.len() ==> #[trigger] interfaces@[i] == items[result@.len()
                        + i],
            decreases interfaces.len(),
        {
            let interface = interfaces.remove(0);
            result.push(Interface { interface });
        }
        Ok(result)
    }

    /// The request for the interface named `name` in the caller's
    /// namespace.
    pub fn get_interface_request(&self, name: &str) -> (nl: Nlmsghdr<Ifinfomsg>)
        ensures
            is_request(
                nl,
                crate::consts::RTM_GETLINK,
                crate::consts::NLM_F_REQUEST,
                self.spec_seq(),
                self.spec_sys().spec_pid(),
            ),
            nl.nl_payload matches NlPayload::Payload(msg) && msg.is_request_header(0)
                && msg.rtattrs@ == query_attrs(msg.rtattrs.order, Some(name@), None),
    {
        self.get_interface_ns_request(name, None)
    }

    /// The request for the interface named `name` in the caller's
    /// namespace, or in the one that `nsid` names.
    pub fn get_interface_ns_request(&self, name: &str, nsid: Option<i32>) -> (nl: Nlmsghdr<Ifinfomsg>)
        ensures
            is_request(
                nl,
                crate::consts::RTM_GETLINK,
                crate::consts::NLM_F_REQUEST,
                self.spec_seq(),
                self.spec_sys().spec_pid(),
            ),
            nl.nl_payload matches NlPayload::Payload(msg) && msg.is_request_header(0)
                && msg.rtattrs@ == query_attrs(msg.rtattrs.order, Some(name@), nsid),
    {
        self.sys.get_interface_request(name, nsid)
    }

    /// Judges the reply to the request for one interface.
    pub fn get_interface(&mut self, reply: Reply<Ifinfomsg>) -> (r: Result<Interface, IoError>)
        ensures
            fetched(payload_outcome(old(self).spec_seq(), reply), r),
            old(self).stepped(final(self), r is Ok),
    {
        self.get_interface_ns(reply)
    }

    /// Judges the reply to the request for one interface.
    pub fn get_interface_ns(&mut self, reply: Reply<Ifinfomsg>) -> (r: Result<Interface, IoError>)
        ensures
            fetched(payload_outcome(old(self).spec_seq(), reply), r),
            old(self).stepped(final(self), r is Ok),
    {
        match self.sys.get_interface(reply) {
            Ok(interface) => Ok(Interface { interface }),
            Err(e) => Err(nl_error_to_io(e)),
        }
    }

    /// The request that moves the interface with the kernel index `ifidx`
    /// into the namespace whose file is open as `ns_file`.
    pub fn set_interface_ns_path_request(&self, ifidx: u32, ns_file: i32) -> (nl: Nlmsghdr<Ifinfomsg>)
        ensures
            is_request(
                nl,
                crate::consts::RTM_NEWLINK,
                crate::consts::NLM_F_REQUEST | crate::consts::NLM_F_ACK,
                self.spec_seq(),
                self.spec_sys().spec_pid(),
            ),
            nl.nl_payload matches NlPayload::Payload(msg) && msg.is_request_header(
                crate::bytes::bits_i32(ifidx),
            ) && msg.rtattrs@ == seq![
                (crate::consts::IFLA_NET_NS_FD, crate::bytes::i32_bytes(msg.rtattrs.order, ns_file)),
            ],
    {
        self.sys.set_interface_ns_fd_request(ifidx, ns_file)
    }

    /// Judges the reply to the move of an interface into a namespace.
    /// The descriptor is the caller's to close, whatever the result.
    pub fn set_interface_ns_path(&mut self, reply: Reply<Ifinfomsg>) -> (r: Result<(), IoError>)
        ensures
            r == translated(ack_outcome(old(self).spec_seq(), reply)),
            old(self).stepped(final(self), r is Ok),
    {
        match self.sys.set_interface_ns_fd(reply) {
            Ok(()) => Ok(()),
            Err(e) => Err(nl_error_to_io(e)),
        }
    }

    /// Takes note of the namespace that the process has entered, where
    /// entering succeeded; a failure leaves the note as it was.
    pub fn setns_path(&mut self, path: &str, entered: Result<(), IoError>) -> (r: Result<
        (),
        IoError,
    >)
        ensures
            r == entered,
            final(self).spec_sys() == old(self).spec_sys(),
            match entered {
                Ok(_) => final(self).spec_netns_path() matches Some(p) && p@ == path@,
                Err(_) => final(self).spec_netns_path() == old(self).spec_netns_path(),
            },
    {
        if entered.is_ok() {
            self.netns_path = Some(String::from_str(path));
        }
        entered
    }

    /// Takes note of the namespace that the process has entered.
    pub fn enter_ns_path(&mut self, path: &str, entered: Result<(), IoError>) -> (r: Result<
        (),
        IoError,
    >)
        ensures
            r == entered,
            final(self).spec_sys() == old(self).spec_sys(),
            match entered {
                Ok(_) => final(self).spec_netns_path() matches Some(p) && p@ == path@,
                Err(_) => final(self).spec_netns_path() == old(self).spec_netns_path(),
            },
    {
        self.setns_path(path, entered)
    }

    /// The query for the id of the namespace whose file is open as `fd`.
    pub fn get_nsid_fd_request(&self, fd: i32) -> (nl: Nlmsghdr<Netns>)
        ensures
            is_request(
                nl,
                crate::consts::RTM_GETNSID,
                crate::consts::NLM_F_REQUEST,
                self.spec_seq(),
                self.spec_sys().spec_pid(),
            ),
            nl.nl_payload matches NlPayload::Payload(ns) && ns.rtgen_family
                == crate::consts::AF_UNSPEC && ns.rtattrs@ == seq![
                (
                    crate::netlink::NetNSA::FD.spec_value(),
                    crate::bytes::i32_bytes(ns.rtattrs.order, fd),
                ),
            ],
    {
        self.sys.get_nsid_fd_request(fd)
    }

    /// Judges the reply to a namespace-id query: the id, or nothing
    /// where the namespace has none assigned.
    pub fn get_nsid_fd(&mut self, reply: Reply<Netns>) -> (r: Result<Option<i32>, IoError>)
        ensures
            r == translated(nsid_outcome(old(self).spec_seq(), reply)),
            old(self).stepped(final(self), r is Ok),
    {
        match self.sys.get_nsid_fd(reply) {
            Ok(id) => Ok(id),
            Err(e) => Err(nl_error_to_io(e)),
        }
    }

    /// Judges the reply to a namespace-id query on a namespace file and
    /// the closing of the file.
    pub fn get_nsid_path(&mut self, reply: Reply<Netns>, closed: Result<(), IoError>) -> (r: Result<
        Option<i32>,
        IoError,
    >)
        ensures
            r == after_close(translated(nsid_outcome(old(self).spec_seq(), reply)), closed),
            final(self).spec_sys().spec_pid() == old(self).spec_sys().spec_pid(),
            final(self).spec_netns_path() == old(self).spec_netns_path(),
            final(self).spec_seq() == seq_after(
                old(self).spec_seq(),
                nsid_outcome(old(self).spec_seq(), reply) is Ok,
            ),
    {
        let primary = self.get_nsid_fd(reply);
        let state: Scoped<Option<i32>> = Scoped::Closing { fd: 0, primary };
        state.closed(closed)
    }

    /// The request that deletes `interface`, which is named by the index
    /// that it carries.
    pub fn delete_interface_request(&self, interface: Interface) -> (nl: Nlmsghdr<Ifinfomsg>)
        ensures
            is_request(
                nl,
                crate::consts::RTM_DELLINK,
                crate::consts::NLM_F_REQUEST | crate::consts::NLM_F_ACK | crate::consts::NLM_F_MATCH
                    | crate::consts::NLM_F_ATOMIC,
                self.spec_seq(),
                self.spec_sys().spec_pid(),
            ),
            nl.nl_payload == NlPayload::Payload(interface.interface.0),
    {
        self.sys.delete_interface_request(interface.interface)
    }

    /// Judges the reply to the deletion of an interface.
    pub fn delete_interface(&mut self, reply: Reply<Ifinfomsg>) -> (r: Result<(), IoError>)
        ensures
            r == translated(ack_outcome(old(self).spec_seq(), reply)),
            old(self).stepped(final(self), r is Ok),
    {
        match self.sys.delete_interface(reply) {
            Ok(()) => Ok(()),
            Err(e) => Err(nl_error_to_io(e)),
        }
    }
}

/// True if `r` is the listing that the transport's judgment `outcome`
/// amounts to: the same interfaces in the same order, or the translated
/// failure.
pub open spec fn listed(
    outcome: Result<Seq<crate::netlink::Interface>, NlError>,
    r: Result<Vec<Interface>, IoError>,
) -> bool {
    match outcome {
        Ok(items) => r matches Ok(v) && v@.len() == items.len() && forall|i: int|
            0 <= i < items.len() ==> (#[trigger] v@[i]).interface == items[i],
        Err(e) => r is Err && r->Err_0 == nl_error_to_io_spec(e),
    }
}

/// True if `r` is the interface that the transport's judgment `outcome`
/// amounts to, or the translated failure.
pub open spec fn fetched(outcome: Result<Ifinfomsg, NlError>, r: Result<Interface, IoError>) -> bool {
    match outcome {
        Ok(msg) => r matches Ok(i) && i.interface.0 == msg,
        Err(e) => r is Err && r->Err_0 == nl_error_to_io_spec(e),
    }
}

} // verus!
