//! Numbers of the route-configuration protocol that the library uses.

use vstd::prelude::*;

verus! {

/// Alignment of attributes and messages on the wire.
pub const ALIGNTO: usize = 4;

/// Size of an attribute header: a 16-bit length and a 16-bit tag.
pub const ATTR_HEADER_LEN: usize = 4;

// Message types.
pub const RTM_NEWLINK: u16 = 16;
pub const RTM_DELLINK: u16 = 17;
pub const RTM_GETLINK: u16 = 18;
pub const RTM_NEWNSID: u16 = 88;
pub const RTM_GETNSID: u16 = 90;
pub const NLMSG_ERROR: u16 = 2;
pub const NLMSG_DONE: u16 = 3;

// Request flags.
pub const NLM_F_REQUEST: u16 = 0x1;
pub const NLM_F_ACK: u16 = 0x4;
pub const NLM_F_ROOT: u16 = 0x100;
pub const NLM_F_MATCH: u16 = 0x200;
pub const NLM_F_ATOMIC: u16 = 0x400;

// Address families.
pub const AF_UNSPEC: u8 = 0;
pub const AF_NETLINK: u8 = 16;

// Hardware types.
pub const ARPHRD_NETROM: u16 = 0;
pub const ARPHRD_ETHER: u16 = 1;
pub const ARPHRD_LOOPBACK: u16 = 772;

// Link attribute tags.
pub const IFLA_ADDRESS: u16 = 1;
pub const IFLA_BROADCAST: u16 = 2;
pub const IFLA_IFNAME: u16 = 3;
pub const IFLA_MTU: u16 = 4;
pub const IFLA_QDISC: u16 = 6;
pub const IFLA_TXQLEN: u16 = 13;
pub const IFLA_OPERSTATE: u16 = 16;
pub const IFLA_LINKINFO: u16 = 18;
pub const IFLA_GROUP: u16 = 27;
pub const IFLA_NET_NS_FD: u16 = 28;
pub const IFLA_EXT_MASK: u16 = 29;
pub const IFLA_LINK_NETNSID: u16 = 37;
pub const IFLA_IF_NETNSID: u16 = 46;

/// Tag of the kind string nested in a link-info attribute.
pub const IFLA_INFO_KIND: u16 = 1;

/// Extended-information mask sent with every link query.
pub const EXT_MASK_VALUE: u32 = 0x0100_0000;

// Interface flags.
pub const IFF_UP: u32 = 0x1;
pub const IFF_BROADCAST: u32 = 0x2;
pub const IFF_DEBUG: u32 = 0x4;
pub const IFF_LOOPBACK: u32 = 0x8;
pub const IFF_POINTOPOINT: u32 = 0x10;
pub const IFF_NOTRAILERS: u32 = 0x20;
pub const IFF_RUNNING: u32 = 0x40;
pub const IFF_NOARP: u32 = 0x80;
pub const IFF_PROMISC: u32 = 0x100;
pub const IFF_ALLMULTI: u32 = 0x200;
pub const IFF_MASTER: u32 = 0x400;
pub const IFF_SLAVE: u32 = 0x800;
pub const IFF_MULTICAST: u32 = 0x1000;
pub const IFF_PORTSEL: u32 = 0x2000;
pub const IFF_AUTOMEDIA: u32 = 0x4000;
pub const IFF_DYNAMIC: u32 = 0x8000;
pub const IFF_LOWER_UP: u32 = 0x1_0000;
pub const IFF_DORMANT: u32 = 0x2_0000;
pub const IFF_ECHO: u32 = 0x4_0000;

// Operational states.
pub const OPER_DOWN: u8 = 2;
pub const OPER_UP: u8 = 6;

// Error numbers.
pub const EWOULDBLOCK: i32 = 11;
pub const ENODEV: i32 = 19;
pub const EINVAL: i32 = 22;
pub const ENOSYS: i32 = 38;
pub const ENOTRECOVERABLE: i32 = 131;

/// Length of an interface name field, terminator included.
pub const IFNAMSIZ: usize = 16;

/// Directory under which named network namespaces are mounted.
pub const IP_NETNS_PATH: &'static str = "/var/run/netns";

/// Request number of the interface-index query on the scalar control path.
pub const SIOCGIFINDEX: u64 = 0x8933;

} // verus!
