//! Whole messages on the wire: the sixteen-byte header, the fixed part of
//! the body, and the attributes.

use vstd::prelude::*;
use crate::attr::{extend, AttrList, Entries};
use crate::bytes::{
    i32_bytes, i32_value, u16_bytes, u16_value, u32_bytes, u32_value, ByteOrder,
};
use crate::consts::{NLMSG_DONE, NLMSG_ERROR};
use crate::error::NlError;
use crate::netlink::{Ifinfomsg, Netns};
use crate::nl::{NlPayload, Nlmsghdr};
use crate::parse::parsed;
use crate::wire::{all_fit, wire};

verus! {

/// Length of the message header.
pub const HEADER_LEN: usize = 16;

/// Length of the fixed part of a link message.
pub const LINK_FIXED_LEN: usize = 16;

/// Length of the fixed part of a namespace message.
pub const NETNS_FIXED_LEN: usize = 4;

/// What a message carries, as plain values.
pub enum BodyView {
    Ack,
    Error { code: i32 },
    Link { family: u8, link_type: u16, index: i32, flags: u32, change: u32, attrs: Entries },
    Netns { family: u8, attrs: Entries },
    Empty,
}

/// A message as plain values.
pub struct MessageView {
    pub nl_type: u16,
    pub nl_flags: u16,
    pub nl_seq: u32,
    pub nl_pid: u32,
    pub body: BodyView,
}

/// The plain values of a link message.
pub open spec fn link_view(msg: Ifinfomsg) -> BodyView {
    BodyView::Link {
        family: msg.ifi_family,
        link_type: msg.ifi_type,
        index: msg.ifi_index,
        flags: msg.ifi_flags,
        change: msg.ifi_change,
        attrs: msg.rtattrs@,
    }
}

/// The plain values of a namespace message.
pub open spec fn netns_view(ns: Netns) -> BodyView {
    BodyView::Netns { family: ns.rtgen_family, attrs: ns.rtattrs@ }
}

/// The plain values of a message that carries a link body.
pub open spec fn link_message_view(nl: Nlmsghdr<Ifinfomsg>) -> MessageView {
    MessageView {
        nl_type: nl.nl_type,
        nl_flags: nl.nl_flags,
        nl_seq: nl.nl_seq,
        nl_pid: nl.nl_pid,
        body: match nl.nl_payload {
            NlPayload::Ack => BodyView::Ack,
            NlPayload::Error { code } => BodyView::Error { code },
            NlPayload::Payload(msg) => link_view(msg),
            NlPayload::Empty => BodyView::Empty,
        },
    }
}

/// The plain values of a message that carries a namespace body.
pub open spec fn netns_message_view(nl: Nlmsghdr<Netns>) -> MessageView {
    MessageView {
        nl_type: nl.nl_type,
        nl_flags: nl.nl_flags,
        nl_seq: nl.nl_seq,
        nl_pid: nl.nl_pid,
        body: match nl.nl_payload {
            NlPayload::Ack => BodyView::Ack,
            NlPayload::Error { code } => BodyView::Error { code },
            NlPayload::Payload(ns) => netns_view(ns),
            NlPayload::Empty => BodyView::Empty,
        },
    }
}

/// The wire form of the header of a message of `len` bytes in all.
pub open spec fn header_wire(order: ByteOrder, len: u32, ty: u16, flags: u16, seq: u32, pid: u32) -> Seq<
    u8,
> {
    u32_bytes(order, len) + u16_bytes(order, ty) + u16_bytes(order, flags) + u32_bytes(order, seq)
        + u32_bytes(order, pid)
}

/// The wire form of a link body: family, a zero byte, hardware type,
/// index, flags, change mask, attributes.
pub open spec fn link_wire(
    order: ByteOrder,
    family: u8,
    link_type: u16,
    index: i32,
    flags: u32,
    change: u32,
    attrs: Entries,
) -> Seq<u8> {
    seq![family, 0u8] + u16_bytes(order, link_type) + i32_bytes(order, index) + u32_bytes(
        order,
        flags,
    ) + u32_bytes(order, change) + wire(order, attrs)
}

/// The wire form of a namespace body: family, three zero bytes,
/// attributes.
pub open spec fn netns_wire(order: ByteOrder, family: u8, attrs: Entries) -> Seq<u8> {
    seq![family, 0u8, 0u8, 0u8] + wire(order, attrs)
}

/// The wire form of a message with the given header fields and body.
pub open spec fn framed(order: ByteOrder, ty: u16, flags: u16, seq: u32, pid: u32, body: Seq<u8>) -> Seq<
    u8,
> {
    header_wire(order, (16 + body.len()) as u32, ty, flags, seq, pid) + body
}

/// The link body that bytes hold.
pub open spec fn link_of(order: ByteOrder, body: Seq<u8>) -> Option<BodyView> {
    if body.len() < 16 {
        None
    } else {
        match parsed(order, body.skip(16)) {
            Some(attrs) => Some(
                BodyView::Link {
                    family: body[0],
                    link_type: u16_value(order, body.subrange(2, 4)),
                    index: i32_value(order, body.subrange(4, 8)),
                    flags: u32_value(order, body.subrange(8, 12)),
                    change: u32_value(order, body.subrange(12, 16)),
                    attrs,
                },
            ),
            None => None,
        }
    }
}

/// The namespace body that bytes hold.
pub open spec fn netns_of(order: ByteOrder, body: Seq<u8>) -> Option<BodyView> {
    if body.len() < 4 {
        None
    } else {
        match parsed(order, body.skip(4)) {
            Some(attrs) => Some(BodyView::Netns { family: body[0], attrs }),
            None => None,
        }
    }
}

/// The body of a message of type `ty`: the end marker carries nothing;
/// an error message carries a code, where zero is an acknowledgment; any
/// other message carries what `payload` reads.
pub open spec fn body_of(order: ByteOrder, ty: u16, body: Seq<u8>, payload: Option<BodyView>) -> Option<
    BodyView,
> {
    if ty == NLMSG_DONE {
        Some(BodyView::Empty)
    } else if ty == NLMSG_ERROR {
        if body.len() < 4 {
            None
        } else {
            let code = i32_value(order, body.subrange(0, 4));
            if code == 0 {
                Some(BodyView::Ack)
            } else {
                Some(BodyView::Error { code })
            }
        }
    } else {
        payload
    }
}

/// The message that `b` holds, if `b` is exactly one message: its stated
/// length is the length of `b`.
pub open spec fn message_of(order: ByteOrder, b: Seq<u8>, payload: Option<BodyView>) -> Option<
    MessageView,
> {
    if b.len() < 16 || u32_value(order, b.subrange(0, 4)) != b.len() {
        None
    } else {
        let ty = u16_value(order, b.subrange(4, 6));
        match body_of(order, ty, b.skip(16), payload) {
            Some(body) => Some(
                MessageView {
                    nl_type: ty,
                    nl_flags: u16_value(order, b.subrange(6, 8)),
                    nl_seq: u32_value(order, b.subrange(8, 12)),
                    nl_pid: u32_value(order, b.subrange(12, 16)),
                    body,
                },
            ),
            None => None,
        }
    }
}

/// The link message that `b` holds.
pub open spec fn link_message_of(order: ByteOrder, b: Seq<u8>) -> Option<MessageView> {
    message_of(order, b, link_of(order, b.skip(16)))
}

/// The namespace message that `b` holds.
pub open spec fn netns_message_of(order: ByteOrder, b: Seq<u8>) -> Option<MessageView> {
    message_of(order, b, netns_of(order, b.skip(16)))
}

/// Reads two bytes at `pos` as a number.
fn u16_at(order: ByteOrder, b: &[u8], pos: usize) -> (v: u16)
    requires
        pos + 2 <= b.len(),
    ensures
        v == u16_value(order, b@.subrange(pos as int, pos + 2)),
{
    match order.get_u16(vstd::slice::slice_subrange(b, pos, pos + 2)) {
        Some(v) => v,
        None => 0,
    }
}

/// Reads four bytes at `pos` as a number.
fn u32_at(order: ByteOrder, b: &[u8], pos: usize) -> (v: u32)
    requires
        pos + 4 <= b.len(),
    ensures
        v == u32_value(order, b@.subrange(pos as int, pos + 4)),
{
    match order.get_u32(vstd::slice::slice_subrange(b, pos, pos + 4)) {
        Some(v) => v,
        None => 0,
    }
}

/// Reads four bytes at `pos` as a signed number.
fn i32_at(order: ByteOrder, b: &[u8], pos: usize) -> (v: i32)
    requires
        pos + 4 <= b.len(),
    ensures
        v == i32_value(order, b@.subrange(pos as int, pos + 4)),
{
    match order.get_i32(vstd::slice::slice_subrange(b, pos, pos + 4)) {
        Some(v) => v,
        None => 0,
    }
}

/// The length that the message at the start of `b` states, if `b` holds a
/// whole header and the stated length is at least a header and no more
/// than `b`.
pub fn message_length(order: ByteOrder, b: &[u8]) -> (len: Option<usize>)
    ensures
        len == (if b@.len() >= 16 && 16 <= u32_value(order, b@.subrange(0, 4)) <= b@.len() {
            Some(u32_value(order, b@.subrange(0, 4)) as usize)
        } else {
            None
        }),
{
    if b.len() < HEADER_LEN {
        return None;
    }
    let len = u32_at(order, b, 0);
    if len < 16 || len as usize > b.len() {
        None
    } else {
        Some(len as usize)
    }
}

/// Puts a header before `body`.  A body too long for the length field
/// cannot be framed.
pub fn frame(order: ByteOrder, nl_type: u16, nl_flags: u16, nl_seq: u32, nl_pid: u32, body: &[u8]) -> (r:
    Result<Vec<u8>, NlError>)
    ensures
        16 + body@.len() <= u32::MAX ==> (r matches Ok(b) && b@ == framed(
            order,
            nl_type,
            nl_flags,
            nl_seq,
            nl_pid,
            body@,
        )),
        16 + body@.len() > u32::MAX ==> r is Err && r->Err_0 == NlError::Ser,
{
    if body.len() > 0xffff_ffff - 16 {
        return Err(NlError::Ser);
    }
    let mut out = order.put_u32((body.len() + 16) as u32);
    extend(&mut out, order.put_u16(nl_type).as_slice());
    extend(&mut out, order.put_u16(nl_flags).as_slice());
    extend(&mut out, order.put_u32(nl_seq).as_slice());
    extend(&mut out, order.put_u32(nl_pid).as_slice());
    extend(&mut out, body);
    Ok(out)
}

impl Ifinfomsg {
    /// The wire form of the body.  A body with an attribute too long for
    /// its length field has none.
    pub fn to_bytes(&self) -> (r: Result<Vec<u8>, NlError>)
        ensures
            all_fit(self.rtattrs@) ==> (r matches Ok(b) && b@ == link_wire(
                self.rtattrs.order,
                self.ifi_family,
                self.ifi_type,
                self.ifi_index,
                self.ifi_flags,
                self.ifi_change,
                self.rtattrs@,
            )),
            !all_fit(self.rtattrs@) ==> r is Err && r->Err_0 == NlError::Ser,
    {
        let order = self.rtattrs.order;
        let attrs = match self.rtattrs.to_bytes() {
            Ok(attrs) => attrs,
            Err(e) => {
                return Err(NlError::Ser);
            },
        };
        let mut out: Vec<u8> = Vec::new();
        out.push(self.ifi_family);
        out.push(0u8);
        assert(out@ =~= seq![self.ifi_family, 0u8]);
        extend(&mut out, order.put_u16(self.ifi_type).as_slice());
        extend(&mut out, order.put_i32(self.ifi_index).as_slice());
        extend(&mut out, order.put_u32(self.ifi_flags).as_slice());
        extend(&mut out, order.put_u32(self.ifi_change).as_slice());
        extend(&mut out, attrs.as_slice());
        Ok(out)
    }

    /// Reads a body from its wire form.
    pub fn from_bytes(order: ByteOrder, b: &[u8]) -> (r: Result<Ifinfomsg, NlError>)
        ensures
            match link_of(order, b@) {
                Some(v) => r matches Ok(msg) && link_view(msg) == v && msg.rtattrs.order == order,
                None => r is Err && r->Err_0 == NlError::De,
            },
    {
        if b.len() < LINK_FIXED_LEN {
            return Err(NlError::De);
        }
        let rest = vstd::slice::slice_subrange(b, 16, b.len());
        assert(rest@ =~= b@.skip(16));
        let attrs = match AttrList::from_bytes(order, rest) {
            Ok(attrs) => attrs,
            Err(e) => {
                return Err(NlError::De);
            },
        };
        Ok(
            Ifinfomsg::new(
                b[0],
                u16_at(order, b, 2),
                i32_at(order, b, 4),
                u32_at(order, b, 8),
                u32_at(order, b, 12),
                attrs,
            ),
        )
    }
}

impl Netns {
    /// The wire form of the body.  A body with an attribute too long for
    /// its length field has none.
    pub fn to_bytes(&self) -> (r: Result<Vec<u8>, NlError>)
        ensures
            all_fit(self.rtattrs@) ==> (r matches Ok(b) && b@ == netns_wire(
                self.rtattrs.order,
                self.rtgen_family,
                self.rtattrs@,
            )),
            !all_fit(self.rtattrs@) ==> r is Err && r->Err_0 == NlError::Ser,
    {
        let attrs = match self.rtattrs.to_bytes() {
            Ok(attrs) => attrs,
            Err(e) => {
                return Err(NlError::Ser);
            },
        };
        let mut out: Vec<u8> = Vec::new();
        out.push(self.rtgen_family);
        out.push(0u8);
        out.push(0u8);
        out.push(0u8);
        assert(out@ =~= seq![self.rtgen_family, 0u8, 0u8, 0u8]);
        extend(&mut out, attrs.as_slice());
        Ok(out)
    }

    /// Reads a body from its wire form.
    pub fn from_bytes(order: ByteOrder, b: &[u8]) -> (r: Result<Netns, NlError>)
        ensures
            match netns_of(order, b@) {
                Some(v) => r matches Ok(ns) && netns_view(ns) == v && ns.rtattrs.order == order,
                None => r is Err && r->Err_0 == NlError::De,
            },
    {
        if b.len() < NETNS_FIXED_LEN {
            return Err(NlError::De);
        }
        let rest = vstd::slice::slice_subrange(b, 4, b.len());
        assert(rest@ =~= b@.skip(4));
        match AttrList::from_bytes(order, rest) {
            Ok(attrs) => Ok(Netns::new(b[0], attrs)),
            Err(e) => Err(NlError::De),
        }
    }
}

/// The header fields and the kind of body of the one message that `b`
/// is: what is common to messages of every body type.
fn open_message(order: ByteOrder, b: &[u8]) -> (r: Option<(u16, u16, u32, u32, Option<i32>)>)
    ensures
        match r {
            None => b@.len() < 16 || u32_value(order, b@.subrange(0, 4)) != b@.len() || (
            u16_value(order, b@.subrange(4, 6)) == NLMSG_ERROR && b@.len() < 20),
            Some((ty, flags, seq, pid, code)) => {
                &&& b@.len() >= 16
                &&& u32_value(order, b@.subrange(0, 4)) == b@.len()
                &&& ty == u16_value(order, b@.subrange(4, 6))
                &&& flags == u16_value(order, b@.subrange(6, 8))
                &&& seq == u32_value(order, b@.subrange(8, 12))
                &&& pid == u32_value(order, b@.subrange(12, 16))
                &&& (ty == NLMSG_ERROR && ty != NLMSG_DONE ==> b@.len() >= 20 && code == Some(
                    i32_value(order, b@.skip(16).subrange(0, 4)),
                ))
                &&& (ty != NLMSG_ERROR || ty == NLMSG_DONE ==> code is None)
            },
        },
{
    if b.len() < HEADER_LEN {
        return None;
    }
    let len = u32_at(order, b, 0);
    if len as usize != b.len() {
        return None;
    }
    let ty = u16_at(order, b, 4);
    let flags = u16_at(order, b, 6);
    let seq = u32_at(order, b, 8);
    let pid = u32_at(order, b, 12);
    if ty == NLMSG_ERROR && ty != NLMSG_DONE {
        if b.len() < 20 {
            return None;
        }
        let code = i32_at(order, b, 16);
        assert(b@.subrange(16, 20) =~= b@.skip(16).subrange(0, 4));
        Some((ty, flags, seq, pid, Some(code)))
    } else {
        Some((ty, flags, seq, pid, None))
    }
}

impl Nlmsghdr<Ifinfomsg> {
    /// The wire form of a message that carries a link body.  Only a
    /// message with a body has one; its attributes must fit and its
    /// length must fit the length field.
    pub fn to_bytes(&self) -> (r: Result<Vec<u8>, NlError>)
        ensures
            match self.nl_payload {
                NlPayload::Payload(msg) if all_fit(msg.rtattrs@) && 32 + wire(
                    msg.rtattrs.order,
                    msg.rtattrs@,
                ).len() <= u32::MAX => r matches Ok(b) && b@ == framed(
                    msg.rtattrs.order,
                    self.nl_type,
                    self.nl_flags,
                    self.nl_seq,
                    self.nl_pid,
                    link_wire(
                        msg.rtattrs.order,
                        msg.ifi_family,
                        msg.ifi_type,
                        msg.ifi_index,
                        msg.ifi_flags,
                        msg.ifi_change,
                        msg.rtattrs@,
                    ),
                ),
                _ => r is Err && r->Err_0 == NlError::Ser,
            },
    {
        match &self.nl_payload {
            NlPayload::Payload(msg) => match msg.to_bytes() {
                Ok(body) => frame(
                    msg.rtattrs.order,
                    self.nl_type,
                    self.nl_flags,
                    self.nl_seq,
                    self.nl_pid,
                    body.as_slice(),
                ),
                Err(e) => Err(NlError::Ser),
            },
            _ => Err(NlError::Ser),
        }
    }

    /// Reads the one message that `b` is.
    pub fn from_bytes(order: ByteOrder, b: &[u8]) -> (r: Result<Nlmsghdr<Ifinfomsg>, NlError>)
        ensures
            match link_message_of(order, b@) {
                Some(v) => r matches Ok(nl) && link_message_view(nl) == v && (nl.nl_payload matches NlPayload::Payload(
                    msg,
                ) ==> msg.rtattrs.order == order),
                None => r is Err && r->Err_0 == NlError::De,
            },
    {
        let (ty, flags, seq, pid, code) = match open_message(order, b) {
            Some(fields) => fields,
            None => {
                return Err(NlError::De);
            },
        };
        let payload = if ty == NLMSG_DONE {
            NlPayload::Empty
        } else if ty == NLMSG_ERROR {
            match code {
                Some(0) => NlPayload::Ack,
                Some(code) => NlPayload::Error { code },
                None => {
                    return Err(NlError::De);
                },
            }
        } else {
            let rest = vstd::slice::slice_subrange(b, 16, b.len());
            assert(rest@ =~= b@.skip(16));
            match Ifinfomsg::from_bytes(order, rest) {
                Ok(msg) => NlPayload::Payload(msg),
                Err(e) => {
                    return Err(NlError::De);
                },
            }
        };
        Ok(Nlmsghdr::new(ty, flags, seq, pid, payload))
    }
}

impl Nlmsghdr<Netns> {
    /// The wire form of a message that carries a namespace body.  Only a
    /// message with a body has one; its attributes must fit and its
    /// length must fit the length field.
    pub fn to_bytes(&self) -> (r: Result<Vec<u8>, NlError>)
        ensures
            match self.nl_payload {
                NlPayload::Payload(ns) if all_fit(ns.rtattrs@) && 20 + wire(
                    ns.rtattrs.order,
                    ns.rtattrs@,
                ).len() <= u32::MAX => r matches Ok(b) && b@ == framed(
                    ns.rtattrs.order,
                    self.nl_type,
                    self.nl_flags,
                    self.nl_seq,
                    self.nl_pid,
                    netns_wire(ns.rtattrs.order, ns.rtgen_family, ns.rtattrs@),
                ),
                _ => r is Err && r->Err_0 == NlError::Ser,
            },
    {
        match &self.nl_payload {
            NlPayload::Payload(ns) => match ns.to_bytes() {
                Ok(body) => frame(
                    ns.rtattrs.order,
                    self.nl_type,
                    self.nl_flags,
                    self.nl_seq,
                    self.nl_pid,
                    body.as_slice(),
                ),
                Err(e) => Err(NlError::Ser),
            },
            _ => Err(NlError::Ser),
        }
    }

    /// Reads the one message that `b` is.
    pub fn from_bytes(order: ByteOrder, b: &[u8]) -> (r: Result<Nlmsghdr<Netns>, NlError>)
        ensures
            match netns_message_of(order, b@) {
                Some(v) => r matches Ok(nl) && netns_message_view(nl) == v && (nl.nl_payload matches NlPayload::Payload(
                    ns,
                ) ==> ns.rtattrs.order == order),
                None => r is Err && r->Err_0 == NlError::De,
            },
    {
        let (ty, flags, seq, pid, code) = match open_message(order, b) {
            Some(fields) => fields,
            None => {
                return Err(NlError::De);
            },
        };
        let payload = if ty == NLMSG_DONE {
            NlPayload::Empty
        } else if ty == NLMSG_ERROR {
            match code {
                Some(0) => NlPayload::Ack,
                Some(code) => NlPayload::Error { code },
                None => {
                    return Err(NlError::De);
                },
            }
        } else {
            let rest = vstd::slice::slice_subrange(b, 16, b.len());
            assert(rest@ =~= b@.skip(16));
            match Netns::from_bytes(order, rest) {
                Ok(ns) => NlPayload::Payload(ns),
                Err(e) => {
                    return Err(NlError::De);
                },
            }
        };
        Ok(Nlmsghdr::new(ty, flags, seq, pid, payload))
    }
}

} // verus!
