use iptool::consts::{
    IFF_BROADCAST, IFF_ECHO, IFF_LOOPBACK, IFF_LOWER_UP, IFF_MULTICAST, IFF_RUNNING, IFF_UP,
};
use iptool::names::{
    flags_str, group_to_name, print_flag_name, print_mc_addr, printable_flag_at, state_to_name,
    type_to_name,
};
use iptool::text::{digit_str, join_strings, push_decimal, push_hex_byte, push_signed_decimal};

#[test]
fn flags_come_in_catalog_order() {
    assert_eq!(flags_str(0), "");
    assert_eq!(flags_str(IFF_UP), "UP");
    assert_eq!(flags_str(IFF_UP | IFF_LOOPBACK | IFF_LOWER_UP), "LOOPBACK,UP,LOWER_UP");
    assert_eq!(
        flags_str(IFF_LOWER_UP | IFF_UP | IFF_MULTICAST | IFF_BROADCAST),
        "BROADCAST,MULTICAST,UP,LOWER_UP"
    );
    assert_eq!(flags_str(IFF_RUNNING), "");
    assert_eq!(flags_str(0x8000_0000 | IFF_ECHO), "ECHO");
    assert_eq!(
        flags_str(u32::MAX),
        "LOOPBACK,BROADCAST,POINTOPOINT,MULTICAST,NOARP,ALLMULTI,PROMISC,MASTER,SLAVE,DEBUG,DYNAMIC,AUTOMEDIA,PORTSEL,NOTRAILERS,UP,LOWER_UP,DORMANT,ECHO"
    );
}

#[test]
fn unknown_flags_leave_no_trace() {
    assert_eq!(iptool::names::PRINTABLE_MASK, 0x7ffbf);
    for flags in [0u32, 0x40, 0x8_0000, 0xfff8_0040, u32::MAX, 0x1_1043, 0x8000_0001] {
        assert_eq!(flags_str(flags), flags_str(flags & iptool::names::PRINTABLE_MASK));
    }
    assert_eq!(flags_str(0xfff8_0040), "");
}

#[test]
fn every_catalog_flag_has_its_name() {
    let names = [
        "LOOPBACK", "BROADCAST", "POINTOPOINT", "MULTICAST", "NOARP", "ALLMULTI", "PROMISC",
        "MASTER", "SLAVE", "DEBUG", "DYNAMIC", "AUTOMEDIA", "PORTSEL", "NOTRAILERS", "UP",
        "LOWER_UP", "DORMANT", "ECHO",
    ];
    for i in 0..18 {
        assert_eq!(print_flag_name(printable_flag_at(i)), names[i]);
    }
    assert_eq!(printable_flag_at(0), 0x8);
    assert_eq!(printable_flag_at(15), 0x1_0000);
    assert_eq!(printable_flag_at(17), 0x4_0000);
}

#[test]
fn names_of_states_groups_and_types() {
    assert_eq!(state_to_name(2), "DOWN");
    assert_eq!(state_to_name(6), "UP");
    assert_eq!(state_to_name(0), "UNKNOWN");
    assert_eq!(state_to_name(255), "UNKNOWN");
    assert_eq!(group_to_name(0), "default");
    assert_eq!(group_to_name(1), "unknown");
    assert_eq!(type_to_name(772), "loopback");
    assert_eq!(type_to_name(1), "ether");
    assert_eq!(type_to_name(0), "unknown");
}

#[test]
fn hardware_addresses_as_text() {
    assert_eq!(
        print_mc_addr(&[0x5a, 0xe6, 0x60, 0x8f, 0x5f, 0xde]),
        Some("5a:e6:60:8f:5f:de".to_string())
    );
    assert_eq!(print_mc_addr(&[0, 1, 2, 10, 255, 16]), Some("00:01:02:0a:ff:10".to_string()));
    assert_eq!(print_mc_addr(&[0; 5]), None);
    assert_eq!(print_mc_addr(&[0; 7]), None);
    assert_eq!(print_mc_addr(&[]), None);
}

#[test]
fn numbers_as_text() {
    for v in [0u32, 7, 10, 99, 100, 1420, 65536, u32::MAX] {
        let mut s = String::from("x");
        push_decimal(&mut s, v);
        assert_eq!(s, format!("x{}", v));
    }
    for v in [0i32, 1, -1, 42, -42, i32::MAX, i32::MIN] {
        let mut s = String::new();
        push_signed_decimal(&mut s, v);
        assert_eq!(s, format!("{}", v));
    }
    for b in [0u8, 9, 10, 15, 16, 0xa5, 255] {
        let mut s = String::new();
        push_hex_byte(&mut s, b);
        assert_eq!(s, format!("{:02x}", b));
    }
    assert_eq!(digit_str(0), "0");
    assert_eq!(digit_str(11), "b");
    assert_eq!(digit_str(15), "f");
}

#[test]
fn joined_text() {
    let parts = vec!["a".to_string(), "".to_string(), "bc".to_string()];
    assert_eq!(join_strings(&parts, ", "), "a, , bc");
    assert_eq!(join_strings(&vec!["one".to_string()], ","), "one");
    assert_eq!(join_strings(&Vec::new(), ","), "");
}
