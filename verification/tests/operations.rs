use iptool::attr::AttrList;
use iptool::bytes::ByteOrder;
use iptool::consts::{IFLA_IFNAME, IFLA_MTU, IFLA_TXQLEN};
use iptool::error::{IoError, NlError};
use iptool::links::Interface;
use iptool::linktool::{netns_path, LinkTool, Scoped, ScopedStep};
use iptool::netlink::{Ifinfomsg, Netns};
use iptool::nl::{NlPayload, Nlmsghdr};
use iptool::show::{contains, list_links, parse_mtu, parse_state};

fn msg(name: &str, index: i32) -> Ifinfomsg {
    let mut attrs = AttrList::with_order(ByteOrder::Little);
    attrs.put_str(IFLA_IFNAME, name);
    attrs.put_u32(IFLA_MTU, 1500);
    Ifinfomsg::new(0, 1, index, 0x1003, 0, attrs)
}

fn interface(name: &str, index: i32) -> Interface {
    Interface { interface: iptool::netlink::Interface(msg(name, index)) }
}

fn nameless(index: i32) -> Interface {
    let attrs = AttrList::with_order(ByteOrder::Little);
    Interface { interface: iptool::netlink::Interface(Ifinfomsg::new(0, 1, index, 0, 0, attrs)) }
}

fn body(seq: u32, name: &str, index: i32) -> Nlmsghdr<Ifinfomsg> {
    Nlmsghdr::new(16, 0, seq, 9, NlPayload::Payload(msg(name, index)))
}

#[test]
fn get_and_list_agree() {
    let mut tool = LinkTool::new(9);
    let listing = tool
        .get_interfaces_ns(vec![
            Ok(body(0, "lo", 1)),
            Ok(body(0, "eth0", 2)),
            Ok(Nlmsghdr::new(3, 0, 0, 9, NlPayload::Empty)),
        ])
        .unwrap();
    assert_eq!(listing.len(), 2);
    for (i, name) in ["lo", "eth0"].iter().enumerate() {
        let request = tool.get_interface_ns_request(name, None);
        let one = tool.get_interface_ns(Ok(Some(body(request.nl_seq, name, i as i32 + 1)))).unwrap();
        assert_eq!(one.get_name().unwrap(), listing[i].get_name().unwrap());
        assert_eq!(one.interface.0.ifi_index, listing[i].interface.0.ifi_index);
        assert_eq!(one.interface.0.ifi_flags, listing[i].interface.0.ifi_flags);
        assert_eq!(one.interface.0.ifi_type, listing[i].interface.0.ifi_type);
        assert_eq!(
            one.interface.0.rtattrs.to_bytes().unwrap(),
            listing[i].interface.0.rtattrs.to_bytes().unwrap()
        );
        assert_eq!(one.print_info().unwrap(), listing[i].print_info().unwrap());
    }
}

#[test]
fn create_then_delete() {
    let mut tool = LinkTool::new(9);
    let spec = Interface::new("dummy").unwrap();
    let create = tool.create_interface_request(spec);
    assert_eq!((create.nl_type, create.nl_flags, create.nl_seq), (16, 0x605, 0));
    tool.create_interface(Ok(Some(Nlmsghdr::new(2, 0, 0, 9, NlPayload::Ack)))).unwrap();

    let get = tool.get_interface_request("dummy0");
    assert_eq!(get.nl_seq, 1);
    let made = tool.get_interface(Ok(Some(body(1, "dummy0", 12)))).unwrap();
    assert_eq!(made.get_name().unwrap(), "dummy0");

    let delete = tool.delete_interface_request(made);
    assert_eq!((delete.nl_type, delete.nl_flags, delete.nl_seq), (17, 0x605, 2));
    match delete.nl_payload {
        NlPayload::Payload(m) => assert_eq!(m.ifi_index, 12),
        _ => panic!("a request carries a body"),
    }
    tool.delete_interface(Ok(Some(Nlmsghdr::new(2, 0, 2, 9, NlPayload::Ack)))).unwrap();

    let again = tool.get_interface_request("dummy0");
    let gone = tool
        .get_interface(Ok(Some(Nlmsghdr::new(2, 0, again.nl_seq, 9, NlPayload::Error { code: -19 }))))
        .unwrap_err();
    assert_eq!(gone, IoError::KernelRejected { errno: 19 });
    assert_eq!(tool.get_inner().get_seq_blocking(false), Ok(3));
}

#[test]
fn failures_are_translated() {
    let mut tool = LinkTool::new(9);
    assert_eq!(tool.create_interface(Ok(None)).unwrap_err(), IoError::MissingAck);
    assert_eq!(tool.delete_interface(Err(NlError::De)).unwrap_err(), IoError::Decode);
    assert_eq!(
        tool.set_interface_ns_path(Ok(Some(Nlmsghdr::new(2, 0, 0, 9, NlPayload::Error { code: -1 }))))
            .unwrap_err(),
        IoError::KernelRejected { errno: 1 }
    );
    assert_eq!(tool.get_interfaces(vec![Err(NlError::BadSeq)]).unwrap_err(), IoError::SequenceMismatch);
    assert_eq!(
        tool.get_interfaces(vec![Err(NlError::Io { errno: 32 })]).unwrap_err(),
        IoError::Resource { errno: 32 }
    );
    assert_eq!(tool.create_interface(Err(NlError::Ser)).unwrap_err(), IoError::Serialize);
    assert_eq!(tool.get_interface(Ok(None)).unwrap_err(), IoError::MissingAck);
    assert_eq!(tool.get_nsid_fd(Err(NlError::LockPoisoned)).unwrap_err(), IoError::LockPoisoned);
    assert_eq!(tool.get_nsid_fd(Err(NlError::LockBusy)).unwrap_err(), IoError::LockBusy);
    assert_eq!(tool.get_inner().get_seq_blocking(false), Ok(0));
    assert_eq!(tool.get_interfaces(vec![]).unwrap().len(), 0);
    let moved = tool.set_interface_ns_path_request(4, 7);
    assert_eq!((moved.nl_type, moved.nl_flags, moved.nl_seq), (16, 5, 1));
    let listing = tool.get_interfaces_request();
    assert_eq!((listing.nl_type, listing.nl_flags), (18, 0x301));
    let nsid = tool.get_nsid_fd_request(5);
    assert_eq!((nsid.nl_type, nsid.nl_flags), (90, 1));
}

#[test]
fn namespace_id_of_a_file() {
    let mut tool = LinkTool::new(9);
    let assigned = Netns::new_with_id(3).unwrap();
    let reply = Ok(Some(Nlmsghdr::new(88, 0, 0, 9, NlPayload::Payload(assigned))));
    assert_eq!(tool.get_nsid_path(reply, Ok(())), Ok(Some(3)));
    let unassigned = Netns::new_with_id(-1).unwrap();
    let reply = Ok(Some(Nlmsghdr::new(88, 0, 1, 9, NlPayload::Payload(unassigned))));
    assert_eq!(tool.get_nsid_path(reply, Ok(())), Ok(None));
    let assigned = Netns::new_with_id(3).unwrap();
    let reply = Ok(Some(Nlmsghdr::new(88, 0, 2, 9, NlPayload::Payload(assigned))));
    assert_eq!(tool.get_nsid_path(reply, Err(IoError::Resource { errno: 9 })), Err(IoError::Resource { errno: 9 }));
    assert_eq!(
        tool.get_nsid_path(Err(NlError::De), Err(IoError::Resource { errno: 9 })),
        Err(IoError::Decode)
    );
    assert_eq!(tool.get_nsid_path(Ok(None), Ok(())), Err(IoError::MissingAck));
    assert_eq!(tool.get_inner().get_seq_blocking(false), Ok(3));
}

#[test]
fn descriptor_is_closed_on_every_path() {
    let state: Scoped<u8> = Scoped::begin();
    let (state, step) = state.opened(Ok(5));
    assert!(matches!(step, ScopedStep::Use { fd: 5 }));
    let (state, fd) = state.used(Err(IoError::Resource { errno: 19 }));
    assert_eq!(fd, 5);
    assert_eq!(state.closed(Ok(())), Err(IoError::Resource { errno: 19 }));

    let (state, _) = Scoped::<u8>::begin().opened(Ok(6));
    let (state, fd) = state.used(Ok(1));
    assert_eq!(fd, 6);
    assert_eq!(state.closed(Err(IoError::Resource { errno: 9 })), Err(IoError::Resource { errno: 9 }));

    let (state, _) = Scoped::<u8>::begin().opened(Ok(7));
    let (state, _) = state.used(Ok(1));
    assert_eq!(state.closed(Ok(())), Ok(1));

    let (state, _) = Scoped::<u8>::begin().opened(Ok(8));
    let (state, _) = state.used(Err(IoError::SequenceMismatch));
    assert_eq!(state.closed(Err(IoError::Resource { errno: 9 })), Err(IoError::SequenceMismatch));

    let (state, step) = Scoped::<u8>::begin().opened(Err(IoError::Resource { errno: 2 }));
    assert!(matches!(step, ScopedStep::Fail { error: IoError::Resource { errno: 2 } }));
    assert!(matches!(state, Scoped::Opening));
}

#[test]
fn entered_namespace_is_noted() {
    let mut tool = LinkTool::new(9);
    assert_eq!(tool.entered_netns(), &None);
    assert_eq!(tool.setns_path("/var/run/netns/a", Err(IoError::Resource { errno: 1 })), Err(IoError::Resource { errno: 1 }));
    assert_eq!(tool.entered_netns(), &None);
    assert_eq!(tool.enter_ns_path("/var/run/netns/a", Ok(())), Ok(()));
    assert_eq!(tool.entered_netns(), &Some("/var/run/netns/a".to_string()));
    assert_eq!(tool.setns_path("/var/run/netns/b", Err(IoError::Decode)), Err(IoError::Decode));
    assert_eq!(tool.entered_netns(), &Some("/var/run/netns/a".to_string()));
}

#[test]
fn namespace_paths() {
    assert_eq!(netns_path("blue"), "/var/run/netns/blue");
    assert_eq!(netns_path(""), "/var/run/netns/");
    assert_eq!(netns_path("/abs"), "/var/run/netns//abs");
}

#[test]
fn setters_rebuild_the_attributes() {
    let mut i = interface("eth0", 2);
    i.set_name("wan0".to_string()).unwrap();
    i.set_mtu(9000).unwrap();
    i.set_txqlen(500).unwrap();
    assert_eq!(i.get_name().unwrap(), "wan0");
    assert_eq!(i.interface.0.rtattrs.len(), 3);
    assert_eq!(i.interface.0.rtattrs.get_u32(IFLA_MTU), Ok(9000));
    assert_eq!(i.interface.0.rtattrs.get_u32(IFLA_TXQLEN), Ok(500));
    assert_eq!(i.interface.0.ifi_index, 2);
    assert_eq!(i.print_info().unwrap(), "2: wan0: <BROADCAST,MULTICAST,UP> mtu 9000 qlen 500\n    link/ether ");
}

#[test]
fn shown_links() {
    let all = vec![interface("lo", 1), interface("eth0", 2), interface("veth1", 3)];
    assert_eq!(list_links(&all, None).unwrap().len(), 3);
    let eth = list_links(&all, Some("eth")).unwrap();
    assert_eq!(eth.len(), 2);
    assert_eq!(eth[0], all[1].print_info().unwrap());
    assert_eq!(eth[1], all[2].print_info().unwrap());
    assert_eq!(list_links(&all, Some("")).unwrap().len(), 3);
    assert_eq!(list_links(&all, Some("nothing")).unwrap().len(), 0);
    assert_eq!(list_links(&Vec::new(), None).unwrap().len(), 0);

    let with_nameless = vec![interface("lo", 1), nameless(2), interface("eth0", 3)];
    assert_eq!(list_links(&with_nameless, None).unwrap_err(), IoError::Decode);
    assert_eq!(list_links(&with_nameless, Some("o")).unwrap().len(), 1);
    assert_eq!(list_links(&with_nameless, Some("")).unwrap().len(), 2);
}

#[test]
fn substring_search_agrees_with_std() {
    for hay in ["", "a", "eth0", "veth-eth", "aaab", "abab"] {
        for needle in ["", "a", "b", "eth", "th0", "eth0", "eth00", "ab", "aab", "bab", "abc"] {
            assert_eq!(contains(hay.as_bytes(), needle.as_bytes()), hay.contains(needle));
        }
    }
}

#[test]
fn command_words() {
    assert_eq!(parse_state("up"), Some(true));
    assert_eq!(parse_state("UP"), Some(true));
    assert_eq!(parse_state("Down"), Some(false));
    assert_eq!(parse_state("dOwN"), Some(false));
    assert_eq!(parse_state(""), None);
    assert_eq!(parse_state("u"), None);
    assert_eq!(parse_state("upp"), None);
    assert_eq!(parse_state("on"), None);
    assert_eq!(parse_state("d\u{f6}wn"), None);
    for word in ["0", "1420", "+9000", "4294967295", "4294967296", "99999999999999999999", "", "+", "-1", "1 ", "0x10", "12a", "007"] {
        assert_eq!(parse_mtu(word), word.parse::<u32>().ok());
    }
}
