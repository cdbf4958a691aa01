//! An interface as the link operations hand it out, and its one-line
//! summary.

use vstd::prelude::*;
pub use crate::linktool::LinkTool;
use vstd::string::StringExecFns;
use vstd::string::StringSliceAdditionalSpecFns;
use crate::attr::{find, payload_str, replaced, str_payload, to_vec, Entries};
use crate::bytes::{u32_bytes, u32_value, ByteOrder};
use crate::consts::{
    IFLA_ADDRESS, IFLA_BROADCAST, IFLA_GROUP, IFLA_IFNAME, IFLA_LINK_NETNSID, IFLA_MTU,
    IFLA_OPERSTATE, IFLA_QDISC, IFLA_TXQLEN,
};
use crate::error::{nl_error_to_io, IoError};
use crate::names::{
    flags_str, flags_text, group_name, group_to_name, hardware_name, mac_text_of, print_mc_addr,
    state_name, state_to_name, type_to_name,
};
use crate::netlink::{name_of, Ifinfomsg};
use crate::text::{
    decimal, join, join_strings, push_decimal, push_signed_decimal, signed_decimal, views,
};

verus! {

/// The number that the first entry with `tag` holds in four bytes.
pub open spec fn u32_attr(order: ByteOrder, s: Entries, tag: u16) -> Option<u32> {
    match find(s, tag) {
        Some(p) if p.len() == 4 => Some(u32_value(order, p)),
        _ => None,
    }
}

/// The number that the first entry with `tag` holds in one byte.
pub open spec fn u8_attr(s: Entries, tag: u16) -> Option<u8> {
    match find(s, tag) {
        Some(p) if p.len() == 1 => Some(p[0]),
        _ => None,
    }
}

/// The string that the first entry with `tag` holds.
pub open spec fn str_attr(s: Entries, tag: u16) -> Option<Seq<char>> {
    match find(s, tag) {
        Some(p) => payload_str(p),
        None => None,
    }
}

/// The address that the first entry with `tag` holds, as text.
pub open spec fn mac_attr(s: Entries, tag: u16) -> Option<Seq<char>> {
    match find(s, tag) {
        Some(p) => mac_text_of(p),
        None => None,
    }
}

/// A labelled field of the summary, or nothing where the value is absent.
pub open spec fn field(label: Seq<char>, value: Option<Seq<char>>) -> Seq<Seq<char>> {
    match value {
        Some(v) => seq![label + v],
        None => Seq::<Seq<char>>::empty(),
    }
}

/// The decimal text of an optional number.
pub open spec fn decimal_of(v: Option<u32>) -> Option<Seq<char>> {
    match v {
        Some(n) => Some(decimal(n as nat)),
        None => None,
    }
}

/// The fields of the first line after the flags: MTU, queueing
/// discipline, state, group and queue length, each only where its
/// attribute is present and can be read.
pub open spec fn attr_fields(order: ByteOrder, s: Entries) -> Seq<Seq<char>> {
    field("mtu "@, decimal_of(u32_attr(order, s, IFLA_MTU))) + field(
        "qdisc "@,
        str_attr(s, IFLA_QDISC),
    ) + field(
        "state "@,
        match u8_attr(s, IFLA_OPERSTATE) {
            Some(st) => Some(state_name(st)),
            None => None,
        },
    ) + field(
        "group "@,
        match u32_attr(order, s, IFLA_GROUP) {
            Some(g) => Some(group_name(g)),
            None => None,
        },
    ) + field("qlen "@, decimal_of(u32_attr(order, s, IFLA_TXQLEN)))
}

/// The fields of the second line after the hardware type: the hardware
/// address and the broadcast address, each only at six bytes, and the id
/// of the namespace of the link's peer.
pub open spec fn address_fields(order: ByteOrder, s: Entries) -> Seq<Seq<char>> {
    field(Seq::<char>::empty(), mac_attr(s, IFLA_ADDRESS)) + field(
        "brd "@,
        mac_attr(s, IFLA_BROADCAST),
    ) + field("link-netns "@, decimal_of(u32_attr(order, s, IFLA_LINK_NETNSID)))
}

/// The summary of an interface whose name is `name`.
pub open spec fn summary_with_name(msg: Ifinfomsg, name: Seq<char>) -> Seq<char> {
    let order = msg.rtattrs.order;
    let s = msg.rtattrs@;
    signed_decimal(msg.ifi_index as int) + ": "@ + name + ": <"@ + flags_text(msg.ifi_flags)
        + "> "@ + join(attr_fields(order, s), " "@) + "\n    link/"@ + hardware_name(
        msg.ifi_type,
    ) + " "@ + join(address_fields(order, s), " "@)
}

/// The summary of an interface.  One without a readable name has none.
pub open spec fn summary(msg: Ifinfomsg) -> Option<Seq<char>> {
    match name_of(msg.rtattrs@) {
        Some(name) => Some(summary_with_name(msg, name)),
        None => None,
    }
}

/// True if `b` differs from `a` at most in what its attributes hold.
pub open spec fn same_but_attrs(a: &Interface, b: &Interface) -> bool {
    &&& a.interface.0.ifi_family == b.interface.0.ifi_family
    &&& a.interface.0.ifi_type == b.interface.0.ifi_type
    &&& a.interface.0.ifi_index == b.interface.0.ifi_index
    &&& a.interface.0.ifi_flags == b.interface.0.ifi_flags
    &&& a.interface.0.ifi_change == b.interface.0.ifi_change
    &&& a.interface.0.rtattrs.order == b.interface.0.rtattrs.order
}

/// One interface, as the link operations take and return it.
#[derive(Debug)]
pub struct Interface {
    pub interface: crate::netlink::Interface,
}

impl Interface {
    /// A creation request for an interface of kind `if_type`.
    pub fn new(if_type: &str) -> (r: Result<Interface, IoError>)
        ensures
            crate::wire::entry_fits((crate::consts::IFLA_INFO_KIND, str_payload(if_type@))) ==> (r
                matches Ok(i) && i.interface.0.is_request_header(0) && i.interface.0.rtattrs@
                == seq![
                (
                    crate::consts::IFLA_LINKINFO,
                    crate::netlink::kind_payload(i.interface.0.rtattrs.order, if_type@),
                ),
            ]),
            !crate::wire::entry_fits((crate::consts::IFLA_INFO_KIND, str_payload(if_type@)))
                ==> r is Err && r->Err_0 == IoError::Serialize,
    {
        match crate::netlink::Interface::new_with_type(if_type) {
            Ok(interface) => Ok(Interface { interface }),
            Err(e) => Err(nl_error_to_io(e)),
        }
    }

    /// The name of the interface.
    pub fn get_name(&self) -> (r: Result<String, IoError>)
        ensures
            match name_of(self.interface.0.rtattrs@) {
                Some(name) => r matches Ok(s) && s@ == name,
                None => r is Err && r->Err_0 == IoError::Decode,
            },
    {
        match self.interface.get_if_name() {
            Ok(name) => Ok(name),
            Err(e) => Err(nl_error_to_io(e)),
        }
    }

    /// Gives the interface the name `name`, for a request that changes
    /// it.
    pub fn set_name(&mut self, name: String) -> (r: Result<(), IoError>)
        ensures
            r is Ok,
            same_but_attrs(old(self), final(self)),
            final(self).interface.0.rtattrs@ == replaced(
                old(self).interface.0.rtattrs@,
                IFLA_IFNAME,
                str_payload(name@),
            ),
            name_of(final(self).interface.0.rtattrs@) == Some(name@),
    {
        let mut payload = to_vec(name.as_str().as_bytes());
        payload.push(0u8);
        assert(payload@ =~= str_payload(name@));
        self.interface.0.rtattrs.set_bytes(IFLA_IFNAME, payload.as_slice());
        proof {
            assert(str_payload(name@).drop_last() =~= vstd::utf8::encode_utf8(name@));
            vstd::utf8::encode_utf8_valid_utf8(name@);
            vstd::utf8::encode_utf8_decode_utf8(name@);
        }
        Ok(())
    }

    /// Gives the interface the MTU `mtu`, for a request that changes it.
    pub fn set_mtu(&mut self, mtu: u32) -> (r: Result<(), IoError>)
        ensures
            r is Ok,
            same_but_attrs(old(self), final(self)),
            final(self).interface.0.rtattrs@ == replaced(
                old(self).interface.0.rtattrs@,
                IFLA_MTU,
                u32_bytes(old(self).interface.0.rtattrs.order, mtu),
            ),
            u32_attr(
                final(self).interface.0.rtattrs.order,
                final(self).interface.0.rtattrs@,
                IFLA_MTU,
            ) == Some(mtu),
    {
        let payload = self.interface.0.rtattrs.order.put_u32(mtu);
        self.interface.0.rtattrs.set_bytes(IFLA_MTU, payload.as_slice());
        proof {
            crate::bytes::lemma_value_of_bytes(self.interface.0.rtattrs.order, 0, mtu, 0);
        }
        Ok(())
    }

    /// Gives the interface the transmit queue length `txqlen`, for a
    /// request that changes it.
    pub fn set_txqlen(&mut self, txqlen: u32) -> (r: Result<(), IoError>)
        ensures
            r is Ok,
            same_but_attrs(old(self), final(self)),
            final(self).interface.0.rtattrs@ == replaced(
                old(self).interface.0.rtattrs@,
                IFLA_TXQLEN,
                u32_bytes(old(self).interface.0.rtattrs.order, txqlen),
            ),
            u32_attr(
                final(self).interface.0.rtattrs.order,
                final(self).interface.0.rtattrs@,
                IFLA_TXQLEN,
            ) == Some(txqlen),
    {
        let payload = self.interface.0.rtattrs.order.put_u32(txqlen);
        self.interface.0.rtattrs.set_bytes(IFLA_TXQLEN, payload.as_slice());
        proof {
            crate::bytes::lemma_value_of_bytes(self.interface.0.rtattrs.order, 0, txqlen, 0);
        }
        Ok(())
    }

    /// The summary of the interface: index, name, flag list and the
    /// present attributes on the first line, hardware type and addresses
    /// on the second.  It is a function of the interface alone; only an
    /// interface without a readable name has none.
    pub fn print_info(&self) -> (r: Result<String, IoError>)
        ensures
            match summary(self.interface.0) {
                Some(text) => r matches Ok(s) && s@ == text,
                None => r is Err && r->Err_0 == IoError::Decode,
            },
    {
        let msg = &self.interface.0;
        let handle = self.interface.get_attr_handle();
        let ghost order = handle.order;
        let ghost s = handle@;
        let name = match self.get_name() {
            Ok(name) => name,
            Err(e) => {
                return Err(e);
            },
        };

        let mut attrs: Vec<String> = Vec::new();
        assert(views(attrs@) =~= Seq::<Seq<char>>::empty());
        if let Ok(mtu) = handle.get_u32(IFLA_MTU) {
            let mut part = String::from_str("mtu ");
            push_decimal(&mut part, mtu);
            attrs.push(part);
        }
        let ghost f1 = field("mtu "@, decimal_of(u32_attr(order, s, IFLA_MTU)));
        assert(views(attrs@) =~= f1);
        if let Ok(qdisc) = handle.get_string(IFLA_QDISC) {
            let mut part = String::from_str("qdisc ");
            part.append(qdisc.as_str());
            attrs.push(part);
        }
        let ghost f2 = f1 + field("qdisc "@, str_attr(s, IFLA_QDISC));
        assert(views(attrs@) =~= f2);
        if let Ok(state) = handle.get_u8(IFLA_OPERSTATE) {
            let mut part = String::from_str("state ");
            part.append(state_to_name(state));
            attrs.push(part);
        }
        let ghost f3 = f2 + field(
            "state "@,
            match u8_attr(s, IFLA_OPERSTATE) {
                Some(st) => Some(state_name(st)),
                None => None,
            },
        );
        assert(views(attrs@) =~= f3);
        if let Ok(group) = handle.get_u32(IFLA_GROUP) {
            let mut part = String::from_str("group ");
            part.append(group_to_name(group));
            attrs.push(part);
        }
        let ghost f4 = f3 + field(
            "group "@,
            match u32_attr(order, s, IFLA_GROUP) {
                Some(g) => Some(group_name(g)),
                None => None,
            },
        );
        assert(views(attrs@) =~= f4);
        if let Ok(qlen) = handle.get_u32(IFLA_TXQLEN) {
            let mut part = String::from_str("qlen ");
            push_decimal(&mut part, qlen);
            attrs.push(part);
        }
        assert(views(attrs@) =~= attr_fields(order, s));

        let mut addresses: Vec<String> = Vec::new();
        assert(views(addresses@) =~= Seq::<Seq<char>>::empty());
        if let Ok(raw) = handle.get_bytes(IFLA_ADDRESS) {
            if let Some(hwaddress) = print_mc_addr(raw.as_slice()) {
                assert(hwaddress@ =~= Seq::<char>::empty() + hwaddress@);
                addresses.push(hwaddress);
            }
        }
        let ghost a1 = field(Seq::<char>::empty(), mac_attr(s, IFLA_ADDRESS));
        assert(views(addresses@) =~= a1);
        if let Ok(raw) = handle.get_bytes(IFLA_BROADCAST) {
            if let Some(brd) = print_mc_addr(raw.as_slice()) {
                let mut part = String::from_str("brd ");
                part.append(brd.as_str());
                addresses.push(part);
            }
        }
        let ghost a2 = a1 + field("brd "@, mac_attr(s, IFLA_BROADCAST));
        assert(views(addresses@) =~= a2);
        if let Ok(netns) = handle.get_u32(IFLA_LINK_NETNSID) {
            let mut part = String::from_str("link-netns ");
            push_decimal(&mut part, netns);
            addresses.push(part);
        }
        assert(views(addresses@) =~= address_fields(order, s));

        let mut out = String::new();
        push_signed_decimal(&mut out, msg.ifi_index);
        out.append(": ");
        out.append(name.as_str());
        out.append(": <");
        out.append(flags_str(msg.ifi_flags).as_str());
        out.append("> ");
        out.append(join_strings(&attrs, " ").as_str());
        out.append("\n    link/");
        out.append(type_to_name(msg.ifi_type));
        out.append(" ");
        out.append(join_strings(&addresses, " ").as_str());
        assert(out@ =~= summary_with_name(*msg, name@));
        Ok(out)
    }
}

} // verus!
