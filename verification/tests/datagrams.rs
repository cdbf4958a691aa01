use iptool::attr::AttrList;
use iptool::bytes::ByteOrder;
use iptool::consts::{IFLA_IFNAME, NLMSG_DONE, NLMSG_ERROR, RTM_NEWLINK};
use iptool::datagram::{first_reply, read_link_datagram, read_netns_datagram, split_datagram};
use iptool::error::NlError;
use iptool::frame::frame;
use iptool::netlink::{Ifinfomsg, Netns};
use iptool::nl::{NlPayload, Nlmsghdr};
use iptool::rtnetlink::RTNetlink;

const LE: ByteOrder = ByteOrder::Little;

fn link_bytes(seq: u32, name: &str, index: i32) -> Vec<u8> {
    let mut attrs = AttrList::with_order(LE);
    attrs.put_str(IFLA_IFNAME, name);
    let msg = Ifinfomsg::new(0, 772, index, 0x49, 0, attrs);
    Nlmsghdr::new(RTM_NEWLINK, 2, seq, 9, NlPayload::Payload(msg)).to_bytes().unwrap()
}

fn done_bytes(seq: u32) -> Vec<u8> {
    frame(LE, NLMSG_DONE, 2, seq, 9, &[0, 0, 0, 0]).unwrap()
}

#[test]
fn datagram_is_cut_at_the_stated_lengths() {
    let one = link_bytes(0, "lo", 1);
    let two = link_bytes(0, "eth0", 2);
    let mut both = one.clone();
    both.extend_from_slice(&two);
    assert_eq!(split_datagram(LE, &both).unwrap(), vec![one.clone(), two.clone()]);
    assert_eq!(split_datagram(LE, &[]).unwrap(), Vec::<Vec<u8>>::new());
    assert_eq!(split_datagram(LE, &one).unwrap(), vec![one.clone()]);

    let unaligned = frame(LE, 16, 0, 0, 0, &[7]).unwrap();
    assert_eq!(unaligned.len(), 17);
    let mut padded = unaligned.clone();
    padded.extend_from_slice(&[0, 0, 0]);
    padded.extend_from_slice(&one);
    assert_eq!(split_datagram(LE, &padded).unwrap(), vec![unaligned.clone(), one.clone()]);
    assert_eq!(split_datagram(LE, &unaligned).unwrap(), vec![unaligned.clone()]);
    let mut short_padding = unaligned.clone();
    short_padding.push(0);
    assert_eq!(split_datagram(LE, &short_padding).unwrap(), vec![unaligned]);

    assert_eq!(split_datagram(LE, &one[..10]).unwrap_err(), NlError::De);
    assert_eq!(split_datagram(LE, &one[..one.len() - 1]).unwrap_err(), NlError::De);
    let mut trailing = one.clone();
    trailing.extend_from_slice(&[1, 2, 3]);
    assert_eq!(split_datagram(LE, &trailing).unwrap_err(), NlError::De);
    assert_eq!(split_datagram(LE, &[15, 0, 0, 0, 0, 0, 0, 0, 0, 0, 0, 0, 0, 0, 0, 0]).unwrap_err(), NlError::De);
    assert_eq!(split_datagram(ByteOrder::Big, &one).unwrap_err(), NlError::De);
}

#[test]
fn datagram_of_a_dump() {
    let mut bytes = link_bytes(0, "lo", 1);
    bytes.extend_from_slice(&link_bytes(0, "eth0", 2));
    bytes.extend_from_slice(&done_bytes(0));
    let replies = read_link_datagram(LE, &bytes);
    assert_eq!(replies.len(), 3);
    let mut handle = RTNetlink::new(9);
    assert!(handle.dump_ended(&replies));
    let interfaces = handle.get_interfaces(replies).unwrap();
    assert_eq!(interfaces.len(), 2);
    assert_eq!(interfaces[0].get_if_name().unwrap(), "lo");
    assert_eq!(interfaces[1].get_if_name().unwrap(), "eth0");
    assert_eq!(interfaces[1].0.ifi_index, 2);
    assert_eq!(handle.get_seq_blocking(false), Ok(1));
}

#[test]
fn dump_goes_on_until_it_ends() {
    let handle = RTNetlink::new(9);
    let first = read_link_datagram(LE, &link_bytes(0, "lo", 1));
    assert!(!handle.dump_ended(&first));
    assert!(!handle.dump_ended(&Vec::new()));
    assert!(handle.dump_ended(&read_link_datagram(LE, &done_bytes(0))));
    assert!(handle.dump_ended(&read_link_datagram(LE, &link_bytes(5, "lo", 1))));
    assert!(handle.dump_ended(&vec![Err(NlError::Io { errno: 4 })]));
    assert!(handle.dump_ended(&read_link_datagram(LE, &[1, 2, 3])));
    let mut rejected = (-1i32).to_le_bytes().to_vec();
    rejected.extend_from_slice(&[0u8; 16]);
    let rejection = frame(LE, NLMSG_ERROR, 0, 0, 9, &rejected).unwrap();
    assert!(handle.dump_ended(&read_link_datagram(LE, &rejection)));
    let mut later = link_bytes(0, "lo", 1);
    later.extend_from_slice(&done_bytes(0));
    assert!(handle.dump_ended(&read_link_datagram(LE, &later)));
}

#[test]
fn broken_datagrams_read_as_decode_failures() {
    let broken = read_link_datagram(LE, &[1, 2, 3]);
    assert_eq!(broken.len(), 1);
    assert_eq!(broken[0].as_ref().unwrap_err(), &NlError::De);
    let no_body = frame(LE, RTM_NEWLINK, 0, 0, 0, &[0; 8]).unwrap();
    let mut bytes = link_bytes(0, "lo", 1);
    bytes.extend_from_slice(&no_body);
    let mixed = read_link_datagram(LE, &bytes);
    assert_eq!(mixed.len(), 2);
    assert!(mixed[0].is_ok());
    assert_eq!(mixed[1].as_ref().unwrap_err(), &NlError::De);
    assert_eq!(read_link_datagram(LE, &[]).len(), 0);
    assert_eq!(read_netns_datagram(LE, &[9]).len(), 1);
}

#[test]
fn the_one_reply_of_a_request() {
    assert!(matches!(first_reply::<Ifinfomsg>(Vec::new()), Ok(None)));
    let got = first_reply(read_link_datagram(LE, &link_bytes(3, "lo", 1))).unwrap().unwrap();
    assert_eq!(got.nl_seq, 3);
    assert_eq!(first_reply::<Ifinfomsg>(vec![Err(NlError::De)]).unwrap_err(), NlError::De);
    let mut two = link_bytes(3, "lo", 1);
    two.extend_from_slice(&link_bytes(4, "eth0", 2));
    assert_eq!(first_reply(read_link_datagram(LE, &two)).unwrap().unwrap().nl_seq, 3);

    let mut ns = Netns::new(0, AttrList::with_order(LE));
    ns.rtattrs.put_i32(1, 12);
    let bytes = Nlmsghdr::new(88, 0, 0, 9, NlPayload::Payload(ns)).to_bytes().unwrap();
    let mut handle = RTNetlink::new(9);
    assert_eq!(handle.get_nsid_fd(first_reply(read_netns_datagram(LE, &bytes))), Ok(Some(12)));
    assert_eq!(handle.get_nsid_fd(first_reply(read_netns_datagram(LE, &[]))), Err(NlError::NoAck));
}
