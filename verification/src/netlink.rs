//! The two messages of the protocol that the library speaks: the link
//! message and the namespace message.

use vstd::prelude::*;
pub use crate::rtnetlink::RTNetlink;
use vstd::string::StringSliceAdditionalSpecFns;
use crate::attr::{find, payload_str, str_payload, to_vec, AttrList, Attribute, Entries};
use crate::bytes::{i32_bytes, i32_value, u32_bytes, u32_value, ByteOrder};
use crate::consts::{
    AF_NETLINK, AF_UNSPEC, ARPHRD_NETROM, IFLA_IFNAME, IFLA_INFO_KIND, IFLA_LINKINFO,
};
use crate::error::NlError;
use crate::wire::{entry_fits, entry_wire};

verus! {

/// The attribute tags of a namespace message.
#[derive(Clone, Copy, Debug, PartialEq, Eq, Structural)]
pub enum NetNSA {
    /// No attribute.
    Unspecified,
    NSid,
    Pid,
    FD,
    TragetSid,
    CurrentSid,
}

impl NetNSA {
    /// The number that stands for the tag on the wire.
    pub open spec fn spec_value(self) -> u16 {
        match self {
            NetNSA::Unspecified => 0,
            NetNSA::NSid => 1,
            NetNSA::Pid => 2,
            NetNSA::FD => 3,
            NetNSA::TragetSid => 4,
            NetNSA::CurrentSid => 5,
        }
    }

    /// The number that stands for the tag on the wire.
    pub fn value(self) -> (v: u16)
        ensures
            v == self.spec_value(),
    {
        match self {
            NetNSA::Unspecified => 0,
            NetNSA::NSid => 1,
            NetNSA::Pid => 2,
            NetNSA::FD => 3,
            NetNSA::TragetSid => 4,
            NetNSA::CurrentSid => 5,
        }
    }

    /// The tag that a number stands for, if it stands for one.
    pub fn from_value(v: u16) -> (tag: Option<NetNSA>)
        ensures
            match tag {
                Some(t) => t.spec_value() == v,
                None => v > 5,
            },
    {
        if v == 0 {
            Some(NetNSA::Unspecified)
        } else if v == 1 {
            Some(NetNSA::NSid)
        } else if v == 2 {
            Some(NetNSA::Pid)
        } else if v == 3 {
            Some(NetNSA::FD)
        } else if v == 4 {
            Some(NetNSA::TragetSid)
        } else if v == 5 {
            Some(NetNSA::CurrentSid)
        } else {
            None
        }
    }
}

/// A namespace message: an address family and attributes that carry a
/// namespace id, an owning process or a descriptor.
#[derive(Debug)]
pub struct Netns {
    pub rtgen_family: u8,
    pub rtattrs: AttrList,
}

impl Netns {
    /// A message with the given family and attributes.
    pub fn new(rtgen_family: u8, rtattrs: AttrList) -> (ns: Netns)
        ensures
            ns.rtgen_family == rtgen_family,
            ns.rtattrs == rtattrs,
    {
        Netns { rtgen_family, rtattrs }
    }

    /// A request that carries the namespace id `id` and nothing else.
    pub fn new_with_id(id: i32) -> (r: Result<Netns, NlError>)
        ensures
            r matches Ok(ns) && ns.rtgen_family == AF_NETLINK && ns.rtattrs@ == seq![
                (NetNSA::NSid.spec_value(), i32_bytes(ns.rtattrs.order, id)),
            ],
    {
        let mut attrs = AttrList::new();
        attrs.put_i32(NetNSA::NSid.value(), id);
        assert(attrs@ =~= seq![(NetNSA::NSid.spec_value(), i32_bytes(attrs.order, id))]);
        Ok(Netns::new(AF_NETLINK, attrs))
    }

    /// Attaches the process that owns the namespace.
    pub fn set_pid(&mut self, pid: u32) -> (r: Result<(), NlError>)
        ensures
            r is Ok,
            final(self).rtgen_family == old(self).rtgen_family,
            final(self).rtattrs.order == old(self).rtattrs.order,
            final(self).rtattrs@ == old(self).rtattrs@.push(
                (NetNSA::Pid.spec_value(), u32_bytes(old(self).rtattrs.order, pid)),
            ),
    {
        self.rtattrs.put_u32(NetNSA::Pid.value(), pid);
        Ok(())
    }

    /// The owning process that the message carries: its first process
    /// attribute, which must be four bytes long.
    pub fn get_pid(&self) -> (r: Result<u32, NlError>)
        ensures
            r == (match find(self.rtattrs@, NetNSA::Pid.spec_value()) {
                Some(p) if p.len() == 4 => Ok(u32_value(self.rtattrs.order, p)),
                _ => Err(NlError::De),
            }),
    {
        self.rtattrs.get_u32(NetNSA::Pid.value())
    }

    /// Attaches a descriptor of the namespace file.
    pub fn set_fd(&mut self, fd: u32) -> (r: Result<(), NlError>)
        ensures
            r is Ok,
            final(self).rtgen_family == old(self).rtgen_family,
            final(self).rtattrs.order == old(self).rtattrs.order,
            final(self).rtattrs@ == old(self).rtattrs@.push(
                (NetNSA::FD.spec_value(), u32_bytes(old(self).rtattrs.order, fd)),
            ),
    {
        self.rtattrs.put_u32(NetNSA::FD.value(), fd);
        Ok(())
    }

    /// The descriptor that the message carries: its first descriptor
    /// attribute, which must be four bytes long.
    pub fn get_fd(&self) -> (r: Result<u32, NlError>)
        ensures
            r == (match find(self.rtattrs@, NetNSA::FD.spec_value()) {
                Some(p) if p.len() == 4 => Ok(u32_value(self.rtattrs.order, p)),
                _ => Err(NlError::De),
            }),
    {
        self.rtattrs.get_u32(NetNSA::FD.value())
    }

    /// The namespace id that the message carries: its first id attribute,
    /// which must be four bytes long.
    pub fn get_id(&self) -> (r: Result<i32, NlError>)
        ensures
            r == (match find(self.rtattrs@, NetNSA::NSid.spec_value()) {
                Some(p) if p.len() == 4 => Ok(i32_value(self.rtattrs.order, p)),
                _ => Err(NlError::De),
            }),
    {
        self.rtattrs.get_i32(NetNSA::NSid.value())
    }
}

/// The fixed part and the attributes of a link message.
#[derive(Debug)]
pub struct Ifinfomsg {
    /// Address family.
    pub ifi_family: u8,
    /// Hardware type.
    pub ifi_type: u16,
    /// Kernel index of the interface; 0 where there is none yet.
    pub ifi_index: i32,
    /// Interface flags as a bit set.
    pub ifi_flags: u32,
    /// Mask of the flags to change.
    pub ifi_change: u32,
    /// The attributes.
    pub rtattrs: AttrList,
}

impl Ifinfomsg {
    /// A link message with the given fields.
    pub fn new(
        ifi_family: u8,
        ifi_type: u16,
        ifi_index: i32,
        ifi_flags: u32,
        ifi_change: u32,
        rtattrs: AttrList,
    ) -> (msg: Ifinfomsg)
        ensures
            msg.ifi_family == ifi_family,
            msg.ifi_type == ifi_type,
            msg.ifi_index == ifi_index,
            msg.ifi_flags == ifi_flags,
            msg.ifi_change == ifi_change,
            msg.rtattrs == rtattrs,
    {
        Ifinfomsg { ifi_family, ifi_type, ifi_index, ifi_flags, ifi_change, rtattrs }
    }

    /// True if the fixed part is the placeholder that requests carry: no
    /// family, no hardware type, no flags.
    pub open spec fn is_request_header(self, index: i32) -> bool {
        &&& self.ifi_family == AF_UNSPEC
        &&& self.ifi_type == ARPHRD_NETROM
        &&& self.ifi_index == index
        &&& self.ifi_flags == 0
        &&& self.ifi_change == 0
    }
}

/// One interface as the protocol describes it.
#[derive(Debug)]
pub struct Interface(pub Ifinfomsg);

/// The link-info payload that asks for an interface of kind `kind`: one
/// nested attribute that holds the kind as a string.
pub open spec fn kind_payload(order: ByteOrder, kind: Seq<char>) -> Seq<u8> {
    entry_wire(order, (IFLA_INFO_KIND, str_payload(kind)))
}

impl Interface {
    /// A creation request for an interface of the given kind: a
    /// placeholder header and one link-info attribute with the kind
    /// nested in it.  A kind too long for an attribute is refused.
    pub fn new_with_type(kind: &str) -> (r: Result<Interface, NlError>)
        ensures
            entry_fits((IFLA_INFO_KIND, str_payload(kind@))) ==> (r matches Ok(i)
                && i.0.is_request_header(0) && i.0.rtattrs@ == seq![
                (IFLA_LINKINFO, kind_payload(i.0.rtattrs.order, kind@)),
            ]),
            !entry_fits((IFLA_INFO_KIND, str_payload(kind@))) ==> r is Err && r->Err_0
                == NlError::Ser,
    {
        let mut attrs = AttrList::new();
        let mut text = to_vec(kind.as_bytes());
        text.push(0u8);
        assert(text@ =~= str_payload(kind@));
        let inner = Attribute::new(IFLA_INFO_KIND, text);
        let mut linkinfo = Attribute::new(IFLA_LINKINFO, Vec::new());
        match linkinfo.add_nested_attribute(attrs.order, &inner) {
            Ok(()) => {},
            Err(e) => {
                return Err(NlError::Ser);
            },
        }
        assert(linkinfo.payload@ =~= kind_payload(attrs.order, kind@));
        attrs.attrs.push(linkinfo);
        assert(attrs@ =~= seq![(IFLA_LINKINFO, kind_payload(attrs.order, kind@))]);
        Ok(Interface(Ifinfomsg::new(AF_UNSPEC, ARPHRD_NETROM, 0, 0, 0, attrs)))
    }

    /// The attributes of the interface, for reading.
    pub fn get_attr_handle(&self) -> (handle: &AttrList)
        ensures
            handle == &self.0.rtattrs,
    {
        &self.0.rtattrs
    }

    /// The attributes of the interface, for changing.
    pub fn get_attr_handle_mut(&mut self) -> (handle: &mut AttrList)
        ensures
            *handle == old(self).0.rtattrs,
            final(self).0.rtattrs == *final(handle),
            final(self).0.ifi_family == old(self).0.ifi_family,
            final(self).0.ifi_type == old(self).0.ifi_type,
            final(self).0.ifi_index == old(self).0.ifi_index,
            final(self).0.ifi_flags == old(self).0.ifi_flags,
            final(self).0.ifi_change == old(self).0.ifi_change,
    {
        &mut self.0.rtattrs
    }

    /// The name of the interface: its first name attribute, read as a
    /// string.
    pub fn get_if_name(&self) -> (r: Result<String, NlError>)
        ensures
            match name_of(self.0.rtattrs@) {
                Some(name) => r matches Ok(s) && s@ == name,
                None => r is Err && r->Err_0 == NlError::De,
            },
    {
        Interface::get_if_name_handle(self.get_attr_handle())
    }

    /// The interface name that a list of attributes carries.
    pub fn get_if_name_handle(attr_handle: &AttrList) -> (r: Result<String, NlError>)
        ensures
            match name_of(attr_handle@) {
                Some(name) => r matches Ok(s) && s@ == name,
                None => r is Err && r->Err_0 == NlError::De,
            },
    {
        attr_handle.get_string(IFLA_IFNAME)
    }
}

/// The interface name that the entries carry, if they carry one that can
/// be read.
pub open spec fn name_of(s: Entries) -> Option<Seq<char>> {
    match find(s, IFLA_IFNAME) {
        Some(p) => payload_str(p),
        None => None,
    }
}

} // verus!
