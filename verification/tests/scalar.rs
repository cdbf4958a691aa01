use iptool::consts;
use iptool::error::ScalarError;
use iptool::scalar::{
    confirm_up, copy_slice, ctl_family, error_of_number, get_up_flags, last_err, mac_from_sa_data, parse_group,
    prefix_mask, set_up_flags, split_at_colons, IfrIfru, Ifreq,
};

#[test]
fn parse_mac_addr() {
    let addr = "5A:E6:60:8F:5F:DE";
    let mut addr_vec: [i8; 14] = [0; 14];
    addr_vec[0] = 0x5A;
    addr_vec[1] = 0xE6u8 as i8;
    addr_vec[2] = 0x60;
    addr_vec[3] = 0x8Fu8 as i8;
    addr_vec[4] = 0x5F;
    addr_vec[5] = 0xDEu8 as i8;

    assert_eq!(iptool::scalar::parse_mac_addr(addr).unwrap(), addr_vec);

    // not long enough address
    iptool::scalar::parse_mac_addr("5A:3B:2D").unwrap_err();
}

#[test]
fn mac_text_forms() {
    let einval = ScalarError::InvalidInput;
    let parse = iptool::scalar::parse_mac_addr;
    assert_eq!(parse("0:1:2:a:B:ff").unwrap()[..6], [0, 1, 2, 10, 11, -1]);
    assert_eq!(parse("+5a:005A:0:0:0:000000ff").unwrap()[..6], [0x5a, 0x5a, 0, 0, 0, -1]);
    assert_eq!(parse("0:1:2:a:B:ff").unwrap()[6..], [0i8; 8]);
    assert_eq!(parse("").unwrap_err(), einval);
    assert_eq!(parse("5A:E6:60:8F:5F").unwrap_err(), einval);
    assert_eq!(parse("5A:E6:60:8F:5F:DE:00").unwrap_err(), einval);
    assert_eq!(parse("5A:E6:60:8F:5F:").unwrap_err(), einval);
    assert_eq!(parse(":E6:60:8F:5F:DE").unwrap_err(), einval);
    assert_eq!(parse("5A:E6:60:8F:5F:100").unwrap_err(), einval);
    assert_eq!(parse("5A:E6:60:8F:5F:G0").unwrap_err(), einval);
    assert_eq!(parse("5A:E6:60:8F:5F:-1").unwrap_err(), einval);
    assert_eq!(parse("5A:E6:60:8F:5F:+").unwrap_err(), einval);
    assert_eq!(parse("5A:E6:60:8F:5F: 1").unwrap_err(), einval);
    assert_eq!(parse("5A-E6-60-8F-5F-DE").unwrap_err(), einval);
    assert_eq!(parse("5A:E6:60:8F:5F:\u{ff11}").unwrap_err(), einval);
}

#[test]
fn mac_text_agrees_with_std() {
    for group in ["0", "7f", "80", "FF", "+1", "001", "100", "", "+", "g", "1g", "-1", "0x1", "fffffffff"] {
        assert_eq!(parse_group(group.as_bytes()), u8::from_str_radix(group, 16).ok());
    }
    for text in ["a:b", "", ":", "a::b:", "abc"] {
        let expected: Vec<Vec<u8>> = text.split(':').map(|p| p.as_bytes().to_vec()).collect();
        assert_eq!(split_at_colons(text.as_bytes()), expected);
    }
}

#[test]
fn copy_slice_copies_the_shorter_length() {
    let mut dst = [9u8; 4];
    assert_eq!(copy_slice(&mut dst, &[1, 2]), 2);
    assert_eq!(dst, [1, 2, 9, 9]);
    assert_eq!(copy_slice(&mut dst, &[5, 6, 7, 8, 9, 10]), 4);
    assert_eq!(dst, [5, 6, 7, 8]);
    assert_eq!(copy_slice(&mut dst, &[]), 0);
    assert_eq!(dst, [5, 6, 7, 8]);
    let mut none: [u8; 0] = [];
    assert_eq!(copy_slice(&mut none, &[1]), 0);
}

#[test]
fn request_names() {
    let req = Ifreq::new("loop1");
    assert_eq!(&req.ifr_name[..5], b"loop1");
    assert_eq!(req.ifr_name[5..], [0u8; 11]);
    assert!(matches!(req.ifr_ifru, IfrIfru::Zeroed));
    let long = Ifreq::new("a-name-longer-than-the-field");
    assert_eq!(&long.ifr_name, b"a-name-longer-th");
    assert_eq!(Ifreq::new("").ifr_name, [0u8; 16]);
}

#[test]
fn up_and_down() {
    assert_eq!(set_up_flags(0x1002, true), 0x1003);
    assert_eq!(set_up_flags(0x1003, true), 0x1003);
    assert_eq!(set_up_flags(0x1003, false), 0x1002);
    assert_eq!(set_up_flags(0x1002, false), 0x1002);
    assert_eq!(set_up_flags(-1, false), -2);
    assert!(get_up_flags(0x1003));
    assert!(!get_up_flags(0x1002));
    assert!(get_up_flags(-1));
    assert_eq!(confirm_up(true, true), Ok(()));
    assert_eq!(confirm_up(false, false), Ok(()));
    assert_eq!(confirm_up(false, true), Err(ScalarError::NotApplied));
    assert_eq!(confirm_up(true, false), Err(ScalarError::NotApplied));
}

#[test]
fn prefix_masks() {
    assert_eq!(prefix_mask(24), Ok(0x00ff_ffff));
    assert_eq!(prefix_mask(32), Ok(u32::MAX));
    assert_eq!(prefix_mask(1), Ok(1));
    assert_eq!(prefix_mask(0), Ok(0));
    assert_eq!(prefix_mask(33), Err(ScalarError::InvalidInput));
    assert_eq!(prefix_mask(u32::MAX), Err(ScalarError::InvalidInput));
}

#[test]
fn hardware_address_of_a_field() {
    let field: [i8; 14] = [0x5a, -26, 0x60, -113, 0x5f, -34, 1, 2, 3, 4, 5, 6, 7, 8];
    assert_eq!(mac_from_sa_data(&field), [0x5a, 0xe6, 0x60, 0x8f, 0x5f, 0xde]);
    let parsed = iptool::scalar::parse_mac_addr("5A:E6:60:8F:5F:DE").unwrap();
    assert_eq!(mac_from_sa_data(&parsed), [0x5a, 0xe6, 0x60, 0x8f, 0x5f, 0xde]);
}

#[test]
fn control_socket_families() {
    assert_eq!(ctl_family(0), Some(libc::PF_INET));
    assert_eq!(ctl_family(1), Some(libc::PF_PACKET));
    assert_eq!(ctl_family(2), Some(libc::PF_INET6));
    assert_eq!(ctl_family(3), None);
}

#[test]
fn failure_of_an_error_number() {
    assert_eq!(error_of_number(Some(19)), ScalarError::Os { errno: 19 });
    assert_eq!(error_of_number(Some(0)), ScalarError::Os { errno: 0 });
    assert_eq!(error_of_number(Some(-1)), ScalarError::Os { errno: -1 });
    assert_eq!(error_of_number(None), ScalarError::Unknown);
}

#[test]
fn scalar_failures_keep_their_numbers() {
    assert_eq!(ScalarError::InvalidInput.raw_os_error(), Some(libc::EINVAL));
    assert_eq!(ScalarError::NotApplied.raw_os_error(), Some(libc::ENOTRECOVERABLE));
    assert_eq!(ScalarError::Os { errno: 19 }.raw_os_error(), Some(19));
    assert_eq!(ScalarError::Unknown.raw_os_error(), None);
    assert_eq!(
        iptool::scalar::parse_mac_addr("5A:3B:2D").unwrap_err().raw_os_error(),
        Some(libc::EINVAL)
    );
}

#[test]
fn last_error_is_a_number_or_unknown() {
    let e = last_err();
    assert!(matches!(e, ScalarError::Os { .. } | ScalarError::Unknown));
}

#[test]
fn constants_agree_with_libc() {
    assert_eq!(consts::IFF_UP as i32, libc::IFF_UP);
    assert_eq!(consts::IFF_LOWER_UP as i32, libc::IFF_LOWER_UP);
    assert_eq!(consts::IFF_ECHO as i32, libc::IFF_ECHO);
    assert_eq!(consts::IFLA_IF_NETNSID, libc::IFLA_IF_NETNSID);
    assert_eq!(consts::IFLA_LINK_NETNSID, libc::IFLA_LINK_NETNSID);
    assert_eq!(consts::IFLA_NET_NS_FD, libc::IFLA_NET_NS_FD);
    assert_eq!(consts::IFLA_EXT_MASK, libc::IFLA_EXT_MASK);
    assert_eq!(consts::IFLA_LINKINFO, libc::IFLA_LINKINFO);
    assert_eq!(consts::IFLA_INFO_KIND, libc::IFLA_INFO_KIND);
    assert_eq!(consts::RTM_NEWNSID, libc::RTM_NEWNSID);
    assert_eq!(consts::RTM_GETNSID, libc::RTM_GETNSID);
    assert_eq!(consts::RTM_GETLINK, libc::RTM_GETLINK);
    assert_eq!(consts::ARPHRD_LOOPBACK, libc::ARPHRD_LOOPBACK);
    assert_eq!(consts::NLM_F_ATOMIC as i32, libc::NLM_F_ATOMIC);
    assert_eq!(consts::NLMSG_DONE as i32, libc::NLMSG_DONE);
    assert_eq!(consts::ENOTRECOVERABLE, libc::ENOTRECOVERABLE);
    assert_eq!(consts::EWOULDBLOCK, libc::EWOULDBLOCK);
    assert_eq!(consts::ENODEV, libc::ENODEV);
    assert_eq!(consts::ENOSYS, libc::ENOSYS);
    assert_eq!(consts::IFNAMSIZ, libc::IFNAMSIZ);
    assert_eq!(consts::ALIGNTO as i32, libc::NLA_ALIGNTO);
    assert_eq!(consts::SIOCGIFINDEX, libc::SIOCGIFINDEX as u64);
    assert_eq!(consts::AF_NETLINK as i32, libc::AF_NETLINK);
}
