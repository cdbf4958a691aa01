//! What holds of the operations taken together.

use vstd::prelude::*;
use crate::attr::{find, lemma_first_is_unique, payload_str, str_payload, Entries};
use crate::bytes::{i32_bytes, i32_value, lemma_value_of_bytes, u32_bytes, ByteOrder};
use crate::consts::{ENODEV, NLMSG_DONE};
use crate::error::{negated, IoError, NlError};
use crate::links::{summary, u32_attr};
use crate::linktool::translated;
use crate::netlink::{name_of, Ifinfomsg, Interface, NetNSA, Netns};
use crate::nl::{NlPayload, Nlmsghdr};
use crate::rtnetlink::{ack_outcome, dump_outcome, nsid_outcome, payload_outcome};

verus! {

/// An interface has a summary exactly if it has a readable name: no
/// other attribute, present or absent, well-formed or not, makes the
/// summary fail.
pub proof fn lemma_summary_needs_only_a_name(msg: Ifinfomsg)
    ensures
        summary(msg) is Some <==> name_of(msg.rtattrs@) is Some,
{
}

/// The summary is a function of what the interface holds: two interfaces
/// with the same fixed part and the same attributes have the same
/// summary.
pub proof fn lemma_summary_is_a_function(a: Ifinfomsg, b: Ifinfomsg)
    requires
        a.ifi_index == b.ifi_index,
        a.ifi_type == b.ifi_type,
        a.ifi_flags == b.ifi_flags,
        a.rtattrs.order == b.rtattrs.order,
        a.rtattrs@ == b.rtattrs@,
    ensures
        summary(a) == summary(b),
{
}

/// A number put into a list is the number read from it, at the first
/// entry with its tag.
pub proof fn lemma_get_after_put(order: ByteOrder, s: Entries, tag: u16, value: u32, signed: i32)
    requires
        !crate::attr::has_tag(s, tag),
    ensures
        u32_attr(order, s.push((tag, u32_bytes(order, value))), tag) == Some(value),
        find(s.push((tag, i32_bytes(order, signed))), tag) == Some(i32_bytes(order, signed)),
        i32_value(order, i32_bytes(order, signed)) == signed,
{
    lemma_value_of_bytes(order, 0, value, signed);
    crate::attr::lemma_find_after_push(s, tag, u32_bytes(order, value), tag);
    crate::attr::lemma_find_after_push(s, tag, i32_bytes(order, signed), tag);
}

/// A string put into a list is the string read from it.
pub proof fn lemma_string_after_put(s: Entries, tag: u16, text: Seq<char>)
    requires
        !crate::attr::has_tag(s, tag),
    ensures
        find(s.push((tag, str_payload(text))), tag) == Some(str_payload(text)),
        payload_str(str_payload(text)) == Some(text),
{
    crate::attr::lemma_find_after_push(s, tag, str_payload(text), tag);
    let bytes = vstd::utf8::encode_utf8(text);
    assert(str_payload(text).drop_last() =~= bytes);
    vstd::utf8::encode_utf8_valid_utf8(text);
    vstd::utf8::encode_utf8_decode_utf8(text);
}

/// A reply that carries a rejection by the kernel is reported as that
/// rejection, with the kernel's number, whatever its sequence number and
/// type: never as a decode failure or a sequence mismatch.
pub proof fn lemma_rejection_is_reported<P>(seq: u32, nl: Nlmsghdr<P>, code: i32)
    requires
        nl.nl_payload == (NlPayload::<P>::Error { code }),
    ensures
        payload_outcome(seq, Ok(Some(nl))) == Err::<P, NlError>(NlError::Nlmsgerr { code }),
        ack_outcome(seq, Ok(Some(nl))) == Err::<(), NlError>(NlError::Nlmsgerr { code }),
        translated(payload_outcome(seq, Ok(Some(nl)))) == Err::<P, IoError>(
            IoError::KernelRejected { errno: negated(code) },
        ),
        code == -ENODEV ==> translated(payload_outcome(seq, Ok(Some(nl)))) == Err::<P, IoError>(
            IoError::KernelRejected { errno: ENODEV },
        ),
{
}

/// The id that a reply states is the id that the query returns: a reply
/// to the current request whose body carries the id `id` gives `id` if
/// it is not negative and nothing if it is.
pub proof fn lemma_nsid_round_trip(seq: u32, nl: Nlmsghdr<Netns>, ns: Netns, id: i32)
    requires
        nl.nl_seq == seq,
        nl.nl_payload == NlPayload::Payload(ns),
        ns.rtattrs@ == seq![(NetNSA::NSid.spec_value(), i32_bytes(ns.rtattrs.order, id))],
    ensures
        nsid_outcome(seq, Ok(Some(nl))) == Ok::<Option<i32>, NlError>(
            if id < 0 {
                None
            } else {
                Some(id)
            },
        ),
{
    let order = ns.rtattrs.order;
    let s = ns.rtattrs@;
    lemma_value_of_bytes(order, 0, 0, id);
    assert(s[0] == (NetNSA::NSid.spec_value(), i32_bytes(order, id)));
    lemma_first_is_unique(s, NetNSA::NSid.spec_value(), 0);
}

/// True if the first `n` messages of a dump are bodies that belong to the
/// request with the sequence number `seq`.
pub open spec fn are_items(seq: u32, replies: Seq<Result<Nlmsghdr<Ifinfomsg>, NlError>>, n: int) -> bool {
    &&& 0 <= n <= replies.len()
    &&& forall|j: int|
        0 <= j < n ==> {
            &&& (#[trigger] replies[j]) matches Ok(nl)
            &&& nl.nl_seq == seq
            &&& nl.nl_type != NLMSG_DONE
            &&& nl.nl_payload is Payload
        }
}

/// A listing holds, in the kernel's order, the very bodies that were
/// received; so what the request for one interface returns for a body is
/// the entry that the listing holds for the same body.
pub proof fn lemma_get_agrees_with_list(
    seq: u32,
    replies: Seq<Result<Nlmsghdr<Ifinfomsg>, NlError>>,
    i: int,
    single: Nlmsghdr<Ifinfomsg>,
    other_seq: u32,
)
    requires
        are_items(seq, replies, i + 1),
        0 <= i,
        dump_outcome(seq, replies) is Ok,
        single.nl_seq == other_seq,
        single.nl_payload == replies[i]->Ok_0.nl_payload,
    ensures
        i < dump_outcome(seq, replies)->Ok_0.len(),
        payload_outcome(other_seq, Ok(Some(single))) is Ok,
        dump_outcome(seq, replies)->Ok_0[i] == Interface(
            payload_outcome(other_seq, Ok(Some(single)))->Ok_0,
        ),
    decreases i,
{
    let first = replies[0];
    assert(first is Ok);
    let rest = replies.skip(1);
    if i > 0 {
        assert forall|j: int| 0 <= j < i implies {
            &&& (#[trigger] rest[j]) matches Ok(nl)
            &&& nl.nl_seq == seq
            &&& nl.nl_type != NLMSG_DONE
            &&& nl.nl_payload is Payload
        } by {
            assert(rest[j] == replies[j + 1]);
        }
        assert(rest[i - 1] == replies[i]);
        lemma_get_agrees_with_list(seq, rest, i - 1, single, other_seq);
        let head = seq![Interface(first->Ok_0.nl_payload->Payload_0)];
        let tail = dump_outcome(seq, rest)->Ok_0;
        assert((head + tail)[i] == tail[i - 1]);
    } else {
        let head = seq![Interface(first->Ok_0.nl_payload->Payload_0)];
        let tail = dump_outcome(seq, rest)->Ok_0;
        assert((head + tail)[0] == head[0]);
    }
}

/// A listing holds, at each place, the body that was received at that
/// place.
pub proof fn lemma_listing_keeps_bodies(
    seq: u32,
    replies: Seq<Result<Nlmsghdr<Ifinfomsg>, NlError>>,
    i: int,
)
    requires
        are_items(seq, replies, i + 1),
        0 <= i,
        dump_outcome(seq, replies) is Ok,
    ensures
        i < dump_outcome(seq, replies)->Ok_0.len(),
        dump_outcome(seq, replies)->Ok_0[i] == Interface(replies[i]->Ok_0.nl_payload->Payload_0),
{
    let single = replies[i]->Ok_0;
    lemma_get_agrees_with_list(seq, replies, i, single, single.nl_seq);
}

/// An interface that the kernel reports with the loopback flag and the
/// loopback hardware type is listed with both, and its summary names
/// LOOPBACK first among the flags and loopback as the type.
pub proof fn lemma_loopback_is_listed_as_loopback(
    seq: u32,
    replies: Seq<Result<Nlmsghdr<Ifinfomsg>, NlError>>,
    i: int,
)
    requires
        are_items(seq, replies, i + 1),
        0 <= i,
        dump_outcome(seq, replies) is Ok,
        crate::names::contains_flag(
            replies[i]->Ok_0.nl_payload->Payload_0.ifi_flags,
            crate::consts::IFF_LOOPBACK,
        ),
        replies[i]->Ok_0.nl_payload->Payload_0.ifi_type == crate::consts::ARPHRD_LOOPBACK,
    ensures
        i < dump_outcome(seq, replies)->Ok_0.len(),
        ({
            let listed = dump_outcome(seq, replies)->Ok_0[i].0;
            &&& crate::names::contains_flag(listed.ifi_flags, crate::consts::IFF_LOOPBACK)
            &&& listed.ifi_type == crate::consts::ARPHRD_LOOPBACK
            &&& crate::names::set_flag_names(listed.ifi_flags, 18).len() >= 1
            &&& crate::names::set_flag_names(listed.ifi_flags, 18)[0] == "LOOPBACK"@
            &&& crate::names::hardware_name(listed.ifi_type) == "loopback"@
        }),
{
    lemma_listing_keeps_bodies(seq, replies, i);
    crate::names::lemma_loopback_comes_first(
        replies[i]->Ok_0.nl_payload->Payload_0.ifi_flags,
        18,
    );
}

/// The header fields of a framed message are read back as they were
/// written, and after the header stands the body.
proof fn lemma_header_round_trip(
    order: ByteOrder,
    nl_type: u16,
    nl_flags: u16,
    nl_seq: u32,
    nl_pid: u32,
    body: Seq<u8>,
)
    requires
        16 + body.len() <= u32::MAX,
    ensures
        ({
            let b = crate::frame::framed(order, nl_type, nl_flags, nl_seq, nl_pid, body);
            &&& b.len() == 16 + body.len()
            &&& crate::bytes::u32_value(order, b.subrange(0, 4)) == b.len()
            &&& crate::bytes::u16_value(order, b.subrange(4, 6)) == nl_type
            &&& crate::bytes::u16_value(order, b.subrange(6, 8)) == nl_flags
            &&& crate::bytes::u32_value(order, b.subrange(8, 12)) == nl_seq
            &&& crate::bytes::u32_value(order, b.subrange(12, 16)) == nl_pid
            &&& b.skip(16) == body
        }),
{
    let b = crate::frame::framed(order, nl_type, nl_flags, nl_seq, nl_pid, body);
    let len = (16 + body.len()) as u32;
    lemma_value_of_bytes(order, nl_type, len, 0);
    lemma_value_of_bytes(order, nl_flags, nl_seq, 0);
    lemma_value_of_bytes(order, 0, nl_pid, 0);
    assert(b.subrange(0, 4) =~= u32_bytes(order, len));
    assert(b.subrange(4, 6) =~= crate::bytes::u16_bytes(order, nl_type));
    assert(b.subrange(6, 8) =~= crate::bytes::u16_bytes(order, nl_flags));
    assert(b.subrange(8, 12) =~= u32_bytes(order, nl_seq));
    assert(b.subrange(12, 16) =~= u32_bytes(order, nl_pid));
    assert(b.skip(16) =~= body);
}

/// A framed link message is read back as what was framed: header fields,
/// fixed part and attributes.
pub proof fn lemma_link_message_round_trip(
    order: ByteOrder,
    nl_type: u16,
    nl_flags: u16,
    nl_seq: u32,
    nl_pid: u32,
    family: u8,
    link_type: u16,
    index: i32,
    flags: u32,
    change: u32,
    attrs: Entries,
)
    requires
        crate::wire::all_fit(attrs),
        32 + crate::wire::wire(order, attrs).len() <= u32::MAX,
        nl_type != NLMSG_DONE,
        nl_type != crate::consts::NLMSG_ERROR,
    ensures
        crate::frame::link_message_of(
            order,
            crate::frame::framed(
                order,
                nl_type,
                nl_flags,
                nl_seq,
                nl_pid,
                crate::frame::link_wire(order, family, link_type, index, flags, change, attrs),
            ),
        ) == Some(
            crate::frame::MessageView {
                nl_type,
                nl_flags,
                nl_seq,
                nl_pid,
                body: crate::frame::BodyView::Link { family, link_type, index, flags, change, attrs },
            },
        ),
{
    let tail = crate::wire::wire(order, attrs);
    let body = crate::frame::link_wire(order, family, link_type, index, flags, change, attrs);
    assert(body.len() == 16 + tail.len());
    lemma_header_round_trip(order, nl_type, nl_flags, nl_seq, nl_pid, body);
    lemma_value_of_bytes(order, link_type, flags, index);
    lemma_value_of_bytes(order, 0, change, 0);
    crate::parse::lemma_parse_of_wire(order, attrs);
    assert(body[0] == family);
    assert(body.subrange(2, 4) =~= crate::bytes::u16_bytes(order, link_type));
    assert(body.subrange(4, 8) =~= i32_bytes(order, index));
    assert(body.subrange(8, 12) =~= u32_bytes(order, flags));
    assert(body.subrange(12, 16) =~= u32_bytes(order, change));
    assert(body.skip(16) =~= tail);
}

/// A framed namespace message is read back as what was framed.
pub proof fn lemma_netns_message_round_trip(
    order: ByteOrder,
    nl_type: u16,
    nl_flags: u16,
    nl_seq: u32,
    nl_pid: u32,
    family: u8,
    attrs: Entries,
)
    requires
        crate::wire::all_fit(attrs),
        20 + crate::wire::wire(order, attrs).len() <= u32::MAX,
        nl_type != NLMSG_DONE,
        nl_type != crate::consts::NLMSG_ERROR,
    ensures
        crate::frame::netns_message_of(
            order,
            crate::frame::framed(
                order,
                nl_type,
                nl_flags,
                nl_seq,
                nl_pid,
                crate::frame::netns_wire(order, family, attrs),
            ),
        ) == Some(
            crate::frame::MessageView {
                nl_type,
                nl_flags,
                nl_seq,
                nl_pid,
                body: crate::frame::BodyView::Netns { family, attrs },
            },
        ),
{
    let tail = crate::wire::wire(order, attrs);
    let body = crate::frame::netns_wire(order, family, attrs);
    assert(body.len() == 4 + tail.len());
    lemma_header_round_trip(order, nl_type, nl_flags, nl_seq, nl_pid, body);
    crate::parse::lemma_parse_of_wire(order, attrs);
    assert(body[0] == family);
    assert(body.skip(4) =~= tail);
}

} // verus!
