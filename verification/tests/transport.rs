use iptool::attr::AttrList;
use iptool::bytes::ByteOrder;
use iptool::consts::{
    IFLA_EXT_MASK, IFLA_IFNAME, IFLA_IF_NETNSID, IFLA_NET_NS_FD, NLMSG_DONE, NLMSG_ERROR,
    RTM_DELLINK, RTM_GETLINK, RTM_GETNSID, RTM_NEWLINK, RTM_NEWNSID,
};
use iptool::error::{nl_error_to_io, negate_code, IoError, NlError};
use iptool::netlink::{Ifinfomsg, Interface, Netns};
use iptool::nl::{NlPayload, Nlmsghdr};
use iptool::rtnetlink::{
    judge_ack, judge_dump_step, judge_payload, DumpStep, LockOutcome, RTNetlink,
};

fn link(name: &str, index: i32) -> Ifinfomsg {
    let mut attrs = AttrList::new();
    attrs.put_str(IFLA_IFNAME, name);
    Ifinfomsg::new(0, 772, index, 0x49, 0, attrs)
}

fn item(seq: u32, name: &str, index: i32) -> Result<Nlmsghdr<Ifinfomsg>, NlError> {
    Ok(Nlmsghdr::new(RTM_NEWLINK, 2, seq, 77, NlPayload::Payload(link(name, index))))
}

fn done(seq: u32) -> Result<Nlmsghdr<Ifinfomsg>, NlError> {
    Ok(Nlmsghdr::new(NLMSG_DONE, 2, seq, 77, NlPayload::Empty))
}

fn ack<P>(seq: u32) -> Result<Option<Nlmsghdr<P>>, NlError> {
    Ok(Some(Nlmsghdr::new(NLMSG_ERROR, 0, seq, 77, NlPayload::Ack)))
}

fn rejection<P>(seq: u32, code: i32) -> Result<Option<Nlmsghdr<P>>, NlError> {
    Ok(Some(Nlmsghdr::new(NLMSG_ERROR, 0, seq, 77, NlPayload::Error { code })))
}

fn seq_of(nl: &RTNetlink) -> u32 {
    nl.get_seq_blocking(false).unwrap()
}

#[test]
fn netlink_get_interfaces() {
    let mut handle = RTNetlink::new(77);
    let request = handle.get_interfaces_request(None);
    let replies = vec![item(request.nl_seq, "lo", 1), item(request.nl_seq, "eth0", 2), done(request.nl_seq)];
    let interfaces = handle.get_interfaces(replies).unwrap();
    assert!(interfaces.len() > 0);

    let lo = &interfaces[0];
    assert_eq!("lo", lo.get_if_name().unwrap());
    println!("{:?}", lo.get_if_name());
    assert_eq!(interfaces.len(), 2);
    assert_eq!("eth0", interfaces[1].get_if_name().unwrap());
    assert_eq!(interfaces[1].0.ifi_index, 2);
}

#[test]
fn netlink_get_interface_lo() {
    let mut handle = RTNetlink::new(77);
    let request = handle.get_interface_request("lo", None);
    let reply = Ok(Some(Nlmsghdr::new(
        RTM_NEWLINK,
        0,
        request.nl_seq,
        77,
        NlPayload::Payload(link("lo", 1)),
    )));
    let interface = handle.get_interface(reply).unwrap();
    assert_eq!("lo", interface.get_if_name().unwrap());
}

#[test]
fn create_dummy() {
    let mut handle = RTNetlink::new(77);
    let request = handle.create_interface_request(Interface::new_with_type("dummy").unwrap());
    assert_eq!(request.nl_type, RTM_NEWLINK);
    handle.create_interface(ack(request.nl_seq)).unwrap();
}

#[test]
fn create_veth() {
    let mut handle = RTNetlink::new(77);
    let request = handle.create_interface_request(Interface::new_with_type("veth").unwrap());
    assert_eq!(request.nl_flags, 0x605);
    handle.create_interface(ack(request.nl_seq)).unwrap();
}

#[test]
fn create_netns() {
    let mut handle = RTNetlink::new(77);
    let mut netns = Netns::new_with_id(5).unwrap();
    netns.set_pid(4242).unwrap();
    let request = handle.create_nsid_request(netns);
    assert_eq!(request.nl_type, RTM_NEWNSID);
    assert_eq!(request.nl_flags, 4);
    handle.create_nsid(ack(request.nl_seq)).unwrap();
    assert_eq!(seq_of(&handle), 1);
}

#[test]
fn requests_carry_the_protocol_numbers() {
    let handle = RTNetlink::new(4242);
    let order = ByteOrder::native();

    let dump = handle.get_interfaces_request(Some(-2));
    assert_eq!((dump.nl_type, dump.nl_flags, dump.nl_seq, dump.nl_pid), (RTM_GETLINK, 0x301, 0, 4242));
    match dump.nl_payload {
        NlPayload::Payload(msg) => {
            assert_eq!((msg.ifi_family, msg.ifi_type, msg.ifi_index), (0, 0, 0));
            assert_eq!((msg.ifi_flags, msg.ifi_change), (0, 0));
            assert_eq!(msg.rtattrs.len(), 2);
            assert_eq!(msg.rtattrs.attrs[0].kind, IFLA_EXT_MASK);
            assert_eq!(msg.rtattrs.attrs[0].payload, order.put_u32(0x0100_0000));
            assert_eq!(msg.rtattrs.attrs[1].kind, IFLA_IF_NETNSID);
            assert_eq!(msg.rtattrs.attrs[1].payload, order.put_i32(-2));
        }
        _ => panic!("a request carries a body"),
    }

    let one = handle.get_interface_request("eth0", None);
    assert_eq!((one.nl_type, one.nl_flags), (RTM_GETLINK, 1));
    match one.nl_payload {
        NlPayload::Payload(msg) => {
            assert_eq!(msg.rtattrs.len(), 2);
            assert_eq!(msg.rtattrs.attrs[0].kind, IFLA_IFNAME);
            assert_eq!(msg.rtattrs.attrs[0].payload, b"eth0\0".to_vec());
            assert_eq!(msg.rtattrs.attrs[1].kind, IFLA_EXT_MASK);
        }
        _ => panic!("a request carries a body"),
    }

    let moved = handle.set_interface_ns_fd_request(3, 9);
    assert_eq!((moved.nl_type, moved.nl_flags), (RTM_NEWLINK, 5));
    match moved.nl_payload {
        NlPayload::Payload(msg) => {
            assert_eq!(msg.ifi_index, 3);
            assert_eq!(msg.rtattrs.len(), 1);
            assert_eq!(msg.rtattrs.attrs[0].kind, IFLA_NET_NS_FD);
            assert_eq!(msg.rtattrs.attrs[0].payload, order.put_i32(9));
        }
        _ => panic!("a request carries a body"),
    }
    match handle.set_interface_ns_fd_request(u32::MAX, 9).nl_payload {
        NlPayload::Payload(msg) => assert_eq!(msg.ifi_index, -1),
        _ => panic!("a request carries a body"),
    }

    let gone = handle.delete_interface_request(Interface(link("dummy0", 12)));
    assert_eq!((gone.nl_type, gone.nl_flags), (RTM_DELLINK, 0x605));
    match gone.nl_payload {
        NlPayload::Payload(msg) => assert_eq!(msg.ifi_index, 12),
        _ => panic!("a request carries a body"),
    }

    let nsid = handle.get_nsid_fd_request(6);
    assert_eq!((nsid.nl_type, nsid.nl_flags), (RTM_GETNSID, 1));
    match nsid.nl_payload {
        NlPayload::Payload(ns) => {
            assert_eq!(ns.rtgen_family, 0);
            assert_eq!(ns.get_fd(), Ok(6));
        }
        _ => panic!("a request carries a body"),
    }
}

#[test]
fn counter_counts_the_successes() {
    let mut handle = RTNetlink::new(1);
    assert_eq!(seq_of(&handle), 0);
    handle.create_interface(ack(0)).unwrap();
    assert_eq!(seq_of(&handle), 1);
    handle.get_interfaces(vec![item(1, "lo", 1), done(1)]).unwrap();
    assert_eq!(seq_of(&handle), 2);
    handle
        .get_interface(Ok(Some(Nlmsghdr::new(16, 0, 2, 1, NlPayload::Payload(link("lo", 1))))))
        .unwrap();
    assert_eq!(seq_of(&handle), 3);
    let mut reply = Netns::new(0, AttrList::new());
    reply.rtattrs.put_i32(1, 4);
    assert_eq!(
        handle.get_nsid_fd(Ok(Some(Nlmsghdr::new(88, 0, 3, 1, NlPayload::Payload(reply))))),
        Ok(Some(4))
    );
    assert_eq!(seq_of(&handle), 4);
    handle.delete_interface(ack(4)).unwrap();
    handle.set_interface_ns_fd(ack(5)).unwrap();
    handle.create_nsid(ack(6)).unwrap();
    assert_eq!(seq_of(&handle), 7);

    assert_eq!(handle.delete_interface(rejection(7, -19)), Err(NlError::Nlmsgerr { code: -19 }));
    assert_eq!(handle.create_interface(ack(8)), Err(NlError::BadSeq));
    assert_eq!(handle.create_interface(Ok(None)), Err(NlError::NoAck));
    assert_eq!(handle.get_interfaces(vec![item(9, "lo", 1)]).unwrap_err(), NlError::BadSeq);
    assert_eq!(seq_of(&handle), 7);
    handle.finish_dump(false);
    assert_eq!(seq_of(&handle), 7);
    handle.finish_dump(true);
    assert_eq!(seq_of(&handle), 8);
}

#[test]
fn transport_of_this_process() {
    let handle = RTNetlink::for_this_process();
    assert_eq!(handle.pid(), (nix::unistd::getpid().as_raw() as u32));
    assert_eq!(seq_of(&handle), 0);
    assert_eq!(handle.get_interfaces_request(None).nl_pid, (nix::unistd::getpid().as_raw() as u32));
    let tool = iptool::linktool::LinkTool::for_this_process();
    assert_eq!(tool.get_inner().pid(), (nix::unistd::getpid().as_raw() as u32));
    assert_eq!(RTNetlink::new(9).pid(), 9);
}

#[test]
fn transport_of_a_given_process() {
    assert_eq!(RTNetlink::for_process(4242).pid(), 4242);
    assert_eq!(RTNetlink::for_process(0).pid(), 0);
    assert_eq!(RTNetlink::for_process(-1).pid(), u32::MAX);
    assert_eq!(RTNetlink::for_process(i32::MIN).pid(), 0x8000_0000);
    assert_eq!(seq_of(&RTNetlink::for_process(7)), 0);
    assert_eq!(RTNetlink::for_process(7).get_interface_request("lo", None).nl_pid, 7);
}

#[test]
fn lock_outcomes() {
    let handle = RTNetlink::new(1);
    assert_eq!(handle.get_seq(LockOutcome::Acquired), Ok(0));
    assert_eq!(handle.get_seq(LockOutcome::WouldBlock), Err(IoError::LockBusy));
    assert_eq!(handle.get_seq(LockOutcome::Poisoned), Err(IoError::LockPoisoned));
    assert_eq!(handle.get_seq_blocking(true), Err(IoError::LockPoisoned));
    assert_eq!(handle.get_seq_blocking(false), Ok(0));
}

#[test]
fn acknowledged_requests() {
    assert_eq!(judge_ack::<Ifinfomsg>(4, ack(4)), Ok(()));
    assert_eq!(judge_ack::<Ifinfomsg>(4, ack(5)), Err(NlError::BadSeq));
    assert_eq!(judge_ack::<Ifinfomsg>(4, Ok(None)), Err(NlError::NoAck));
    assert_eq!(judge_ack::<Ifinfomsg>(4, Err(NlError::De)), Err(NlError::De));
    assert_eq!(judge_ack::<Ifinfomsg>(4, Err(NlError::Io { errno: 32 })), Err(NlError::Io { errno: 32 }));
    assert_eq!(judge_ack::<Ifinfomsg>(4, rejection(4, -17)), Err(NlError::Nlmsgerr { code: -17 }));
    assert_eq!(judge_ack::<Ifinfomsg>(4, rejection(9, -17)), Err(NlError::Nlmsgerr { code: -17 }));
    assert_eq!(
        judge_ack(4, Ok(Some(Nlmsghdr::new(16, 0, 4, 1, NlPayload::Payload(link("lo", 1)))))),
        Err(NlError::NoAck)
    );
    assert_eq!(
        judge_ack::<Ifinfomsg>(4, Ok(Some(Nlmsghdr::new(3, 0, 4, 1, NlPayload::Empty)))),
        Err(NlError::NoAck)
    );
}

#[test]
fn single_replies() {
    let got = judge_payload(4, Ok(Some(Nlmsghdr::new(16, 0, 4, 1, NlPayload::Payload(link("lo", 1))))));
    assert_eq!(got.unwrap().ifi_index, 1);
    let wrong = judge_payload(4, Ok(Some(Nlmsghdr::new(16, 0, 5, 1, NlPayload::Payload(link("lo", 1))))));
    assert_eq!(wrong.unwrap_err(), NlError::BadSeq);
    assert_eq!(judge_payload::<Ifinfomsg>(4, Ok(None)).unwrap_err(), NlError::NoAck);
    assert_eq!(judge_payload::<Ifinfomsg>(4, Err(NlError::De)).unwrap_err(), NlError::De);
    assert_eq!(judge_payload::<Ifinfomsg>(4, ack(4)).unwrap_err(), NlError::Io { errno: 131 });
    assert_eq!(judge_payload::<Ifinfomsg>(4, ack(5)).unwrap_err(), NlError::BadSeq);
    assert_eq!(
        judge_payload::<Ifinfomsg>(4, Ok(Some(Nlmsghdr::new(3, 0, 4, 1, NlPayload::Empty)))).unwrap_err(),
        NlError::Io { errno: 131 }
    );
}

#[test]
fn unknown_device_is_a_rejection_by_the_kernel() {
    let mut handle = RTNetlink::new(1);
    let request = handle.get_interface_request("not-a-real-device-name", None);
    let failed = handle.get_interface(rejection(request.nl_seq, -19)).unwrap_err();
    assert_eq!(failed, NlError::Nlmsgerr { code: -19 });
    assert_eq!(nl_error_to_io(failed), IoError::KernelRejected { errno: 19 });
    let other_seq = handle.get_interface(rejection(request.nl_seq + 5, -19)).unwrap_err();
    assert_eq!(other_seq, NlError::Nlmsgerr { code: -19 });
    let from_socket = handle.get_interface(Err(NlError::Nlmsgerr { code: -19 })).unwrap_err();
    assert_eq!(nl_error_to_io(from_socket), IoError::KernelRejected { errno: 19 });
    assert_eq!(seq_of(&handle), 0);
}

#[test]
fn namespace_id_round_trip() {
    let mut handle = RTNetlink::new(1);
    for (seq, id, expected) in [(0u32, 7, Some(7)), (1, 0, Some(0)), (2, -1, None), (3, i32::MIN, None), (4, i32::MAX, Some(i32::MAX))] {
        let reply = Netns::new_with_id(id).unwrap();
        let got = handle.get_nsid_fd(Ok(Some(Nlmsghdr::new(88, 0, seq, 1, NlPayload::Payload(reply)))));
        assert_eq!(got, Ok(expected));
    }
    let empty = Netns::new(0, AttrList::new());
    assert_eq!(
        handle.get_nsid_fd(Ok(Some(Nlmsghdr::new(88, 0, 5, 1, NlPayload::Payload(empty))))),
        Err(NlError::De)
    );
    let mut short = Netns::new(0, AttrList::new());
    short.rtattrs.put_bytes(1, &[1, 0]);
    assert_eq!(
        handle.get_nsid_fd(Ok(Some(Nlmsghdr::new(88, 0, 5, 1, NlPayload::Payload(short))))),
        Err(NlError::De)
    );
    assert_eq!(handle.get_nsid_fd(rejection(5, -22)), Err(NlError::Nlmsgerr { code: -22 }));
    assert_eq!(handle.get_nsid_fd(Ok(None)), Err(NlError::NoAck));
    assert_eq!(seq_of(&handle), 5);
}

#[test]
fn dumps() {
    let mut handle = RTNetlink::new(1);
    assert_eq!(handle.get_interfaces(vec![]).unwrap().len(), 0);
    assert_eq!(handle.get_interfaces(vec![done(1)]).unwrap().len(), 0);
    let after_done = handle
        .get_interfaces(vec![item(2, "a", 1), done(2), item(9, "b", 2), Err(NlError::De)])
        .unwrap();
    assert_eq!(after_done.len(), 1);
    let without_marker = handle.get_interfaces(vec![item(3, "a", 1), item(3, "b", 2)]).unwrap();
    assert_eq!(without_marker.len(), 2);
    assert_eq!(without_marker[0].get_if_name().unwrap(), "a");
    assert_eq!(without_marker[1].get_if_name().unwrap(), "b");

    let failing = vec![item(4, "a", 1), Err(NlError::De), done(4)];
    assert_eq!(handle.get_interfaces(failing).unwrap_err(), NlError::De);
    let rejected = vec![
        item(4, "a", 1),
        Ok(Nlmsghdr::new(NLMSG_ERROR, 0, 99, 1, NlPayload::Error { code: -1 })),
    ];
    assert_eq!(handle.get_interfaces(rejected).unwrap_err(), NlError::Nlmsgerr { code: -1 });
    let odd = vec![Ok(Nlmsghdr::new(16, 0, 4, 1, NlPayload::Ack))];
    assert_eq!(handle.get_interfaces(odd).unwrap_err(), NlError::Io { errno: 131 });
    let done_wrong_seq = vec![done(5)];
    assert_eq!(handle.get_interfaces(done_wrong_seq).unwrap_err(), NlError::BadSeq);
    assert_eq!(seq_of(&handle), 4);

    match handle.dump_step(item(4, "lo", 1)).unwrap() {
        DumpStep::Item(i) => assert_eq!(i.get_if_name().unwrap(), "lo"),
        DumpStep::Done => panic!("an item was handed in"),
    }
    assert!(matches!(handle.dump_step(done(4)), Ok(DumpStep::Done)));
    assert!(matches!(judge_dump_step(4, item(5, "lo", 1)), Err(NlError::BadSeq)));
    assert!(matches!(
        judge_dump_step(4, Ok(Nlmsghdr::new(NLMSG_DONE, 0, 4, 1, NlPayload::Payload(link("x", 1))))),
        Ok(DumpStep::Done)
    ));
}

#[test]
fn counter_wraps_at_its_width() {
    let mut handle = RTNetlink::new(1);
    let mut n: u32 = 0;
    while n < 1000 {
        handle.create_interface(ack(n)).unwrap();
        n += 1;
    }
    assert_eq!(seq_of(&handle), 1000);
}

#[test]
fn causes_stay_apart() {
    let causes = [
        NlError::Nlmsgerr { code: -19 },
        NlError::Nlmsgerr { code: -131 },
        NlError::Nlmsgerr { code: i32::MIN },
        NlError::BadSeq,
        NlError::NoAck,
        NlError::De,
        NlError::Ser,
        NlError::LockBusy,
        NlError::LockPoisoned,
        NlError::Io { errno: 19 },
        NlError::Io { errno: 131 },
    ];
    for (i, a) in causes.iter().enumerate() {
        for (j, b) in causes.iter().enumerate() {
            assert_eq!(nl_error_to_io(*a) == nl_error_to_io(*b), i == j);
        }
    }
}

#[test]
fn error_translation() {
    assert_eq!(nl_error_to_io(NlError::Nlmsgerr { code: -19 }), IoError::KernelRejected { errno: 19 });
    assert_eq!(nl_error_to_io(NlError::Nlmsgerr { code: 17 }), IoError::KernelRejected { errno: -17 });
    assert_eq!(nl_error_to_io(NlError::Nlmsgerr { code: i32::MIN }), IoError::KernelRejected { errno: i32::MIN });
    assert_eq!(nl_error_to_io(NlError::De), IoError::Decode);
    assert_eq!(nl_error_to_io(NlError::Ser), IoError::Serialize);
    assert_eq!(nl_error_to_io(NlError::BadSeq), IoError::SequenceMismatch);
    assert_eq!(nl_error_to_io(NlError::NoAck), IoError::MissingAck);
    assert_eq!(nl_error_to_io(NlError::LockBusy), IoError::LockBusy);
    assert_eq!(nl_error_to_io(NlError::LockPoisoned), IoError::LockPoisoned);
    assert_eq!(nl_error_to_io(NlError::Io { errno: 5 }), IoError::Resource { errno: 5 });
    assert_eq!(nl_error_to_io(NlError::Nlmsgerr { code: -5 }), IoError::KernelRejected { errno: 5 });
    assert_eq!(negate_code(-131), 131);
    assert_eq!(negate_code(0), 0);
    assert_eq!(negate_code(i32::MAX), -i32::MAX);
}
