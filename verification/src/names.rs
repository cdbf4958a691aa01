//! The printable names of flags, states, groups and hardware types, and
//! the text of a hardware address.

use vstd::prelude::*;
use vstd::string::StringExecFns;
use crate::consts::{
    ARPHRD_ETHER, ARPHRD_LOOPBACK, IFF_ALLMULTI, IFF_AUTOMEDIA, IFF_BROADCAST, IFF_DEBUG,
    IFF_DORMANT, IFF_DYNAMIC, IFF_ECHO, IFF_LOOPBACK, IFF_LOWER_UP, IFF_MASTER, IFF_MULTICAST,
    IFF_NOARP, IFF_NOTRAILERS, IFF_POINTOPOINT, IFF_PORTSEL, IFF_PROMISC, IFF_SLAVE, IFF_UP,
    OPER_DOWN, OPER_UP,
};
use crate::text::{hex_byte, join, join_strings, push_hex_byte, views};

verus! {

/// The number of flags that have a printable name.
pub const PRINTABLE_FLAG_COUNT: usize = 18;

/// The catalog of printable flags: the flag at place `i`, in the order in
/// which the names are printed.
pub open spec fn printable_flag(i: int) -> u32 {
    if i == 0 {
        IFF_LOOPBACK
    } else if i == 1 {
        IFF_BROADCAST
    } else if i == 2 {
        IFF_POINTOPOINT
    } else if i == 3 {
        IFF_MULTICAST
    } else if i == 4 {
        IFF_NOARP
    } else if i == 5 {
        IFF_ALLMULTI
    } else if i == 6 {
        IFF_PROMISC
    } else if i == 7 {
        IFF_MASTER
    } else if i == 8 {
        IFF_SLAVE
    } else if i == 9 {
        IFF_DEBUG
    } else if i == 10 {
        IFF_DYNAMIC
    } else if i == 11 {
        IFF_AUTOMEDIA
    } else if i == 12 {
        IFF_PORTSEL
    } else if i == 13 {
        IFF_NOTRAILERS
    } else if i == 14 {
        IFF_UP
    } else if i == 15 {
        IFF_LOWER_UP
    } else if i == 16 {
        IFF_DORMANT
    } else {
        IFF_ECHO
    }
}

/// True if `flag` is one of the catalog.
pub open spec fn is_printable(flag: u32) -> bool {
    exists|i: int| 0 <= i < 18 && printable_flag(i) == flag
}

/// The printable name of a flag of the catalog.
pub open spec fn flag_name(flag: u32) -> Seq<char> {
    if flag == IFF_LOOPBACK {
        "LOOPBACK"@
    } else if flag == IFF_BROADCAST {
        "BROADCAST"@
    } else if flag == IFF_POINTOPOINT {
        "POINTOPOINT"@
    } else if flag == IFF_MULTICAST {
        "MULTICAST"@
    } else if flag == IFF_NOARP {
        "NOARP"@
    } else if flag == IFF_ALLMULTI {
        "ALLMULTI"@
    } else if flag == IFF_PROMISC {
        "PROMISC"@
    } else if flag == IFF_MASTER {
        "MASTER"@
    } else if flag == IFF_SLAVE {
        "SLAVE"@
    } else if flag == IFF_DEBUG {
        "DEBUG"@
    } else if flag == IFF_DYNAMIC {
        "DYNAMIC"@
    } else if flag == IFF_AUTOMEDIA {
        "AUTOMEDIA"@
    } else if flag == IFF_PORTSEL {
        "PORTSEL"@
    } else if flag == IFF_NOTRAILERS {
        "NOTRAILERS"@
    } else if flag == IFF_UP {
        "UP"@
    } else if flag == IFF_LOWER_UP {
        "LOWER_UP"@
    } else if flag == IFF_DORMANT {
        "DORMANT"@
    } else {
        "ECHO"@
    }
}

/// True if the bit set `flags` holds every bit of `flag`.
pub open spec fn contains_flag(flags: u32, flag: u32) -> bool {
    flags & flag == flag
}

/// The names of those among the first `n` flags of the catalog that
/// `flags` holds, in catalog order.
pub open spec fn set_flag_names(flags: u32, n: int) -> Seq<Seq<char>>
    decreases n,
{
    if n <= 0 {
        Seq::<Seq<char>>::empty()
    } else if contains_flag(flags, printable_flag(n - 1)) {
        set_flag_names(flags, n - 1).push(flag_name(printable_flag(n - 1)))
    } else {
        set_flag_names(flags, n - 1)
    }
}

/// The flag list of the summary: the names of the set flags of the
/// catalog, in catalog order, separated by commas.  Bits outside the
/// catalog leave no trace.
pub open spec fn flags_text(flags: u32) -> Seq<char> {
    join(set_flag_names(flags, 18), ","@)
}

/// The printable name of an operational state.
pub open spec fn state_name(state: u8) -> Seq<char> {
    if state == OPER_DOWN {
        "DOWN"@
    } else if state == OPER_UP {
        "UP"@
    } else {
        "UNKNOWN"@
    }
}

/// The printable name of a group.
pub open spec fn group_name(group: u32) -> Seq<char> {
    if group == 0 {
        "default"@
    } else {
        "unknown"@
    }
}

/// The printable name of a hardware type.
pub open spec fn hardware_name(link_type: u16) -> Seq<char> {
    if link_type == ARPHRD_LOOPBACK {
        "loopback"@
    } else if link_type == ARPHRD_ETHER {
        "ether"@
    } else {
        "unknown"@
    }
}

/// The text of a hardware address: its bytes as two hexadecimal digits
/// each, lower case, separated by colons.
pub open spec fn mac_text(addr: Seq<u8>) -> Seq<char> {
    join(Seq::new(addr.len(), |i: int| hex_byte(addr[i])), ":"@)
}

/// The text of a hardware address, which is one only at six bytes.
pub open spec fn mac_text_of(addr: Seq<u8>) -> Option<Seq<char>> {
    if addr.len() == 6 {
        Some(mac_text(addr))
    } else {
        None
    }
}

/// The bits of all flags of the catalog.
pub const PRINTABLE_MASK: u32 = 0x7_ffbf;

/// Whether a flag of the catalog is set does not depend on the bits
/// outside the catalog.
proof fn lemma_catalog_bit(flags: u32, i: int)
    requires
        0 <= i < 18,
    ensures
        contains_flag(flags & PRINTABLE_MASK, printable_flag(i)) == contains_flag(
            flags,
            printable_flag(i),
        ),
{
    let f = printable_flag(i);
    assert(f == 0x1 || f == 0x2 || f == 0x4 || f == 0x8 || f == 0x10 || f == 0x20 || f == 0x80
        || f == 0x100 || f == 0x200 || f == 0x400 || f == 0x800 || f == 0x1000 || f == 0x2000 || f
        == 0x4000 || f == 0x8000 || f == 0x1_0000 || f == 0x2_0000 || f == 0x4_0000);
    assert(((flags & 0x7_ffbfu32) & f == f) == (flags & f == f)) by (bit_vector)
        requires
            f == 0x1 || f == 0x2 || f == 0x4 || f == 0x8 || f == 0x10 || f == 0x20 || f == 0x80
                || f == 0x100 || f == 0x200 || f == 0x400 || f == 0x800 || f == 0x1000 || f
                == 0x2000 || f == 0x4000 || f == 0x8000 || f == 0x1_0000 || f == 0x2_0000 || f
                == 0x4_0000,
    ;
}

/// The names of the set flags do not depend on the bits outside the
/// catalog.
proof fn lemma_names_ignore_unknown_bits(flags: u32, n: int)
    requires
        0 <= n <= 18,
    ensures
        set_flag_names(flags & PRINTABLE_MASK, n) == set_flag_names(flags, n),
    decreases n,
{
    if n > 0 {
        lemma_names_ignore_unknown_bits(flags, n - 1);
        lemma_catalog_bit(flags, n - 1);
    }
}

/// Flags without a printable name leave no trace in the flag list.
pub proof fn lemma_unknown_flags_leave_no_trace(flags: u32)
    ensures
        flags_text(flags) == flags_text(flags & PRINTABLE_MASK),
{
    lemma_names_ignore_unknown_bits(flags, 18);
}

/// Where the loopback flag is set, the flag list begins with its name.
pub proof fn lemma_loopback_comes_first(flags: u32, n: int)
    requires
        contains_flag(flags, IFF_LOOPBACK),
        1 <= n <= 18,
    ensures
        set_flag_names(flags, n).len() >= 1,
        set_flag_names(flags, n)[0] == "LOOPBACK"@,
    decreases n,
{
    if n > 1 {
        lemma_loopback_comes_first(flags, n - 1);
    } else {
        assert(set_flag_names(flags, 0) =~= Seq::<Seq<char>>::empty());
    }
}

/// The flag at place `i` of the catalog.
pub fn printable_flag_at(i: usize) -> (flag: u32)
    requires
        i < PRINTABLE_FLAG_COUNT,
    ensures
        flag == printable_flag(i as int),
        is_printable(flag),
{
    let flag: u32 = if i == 0 {
        IFF_LOOPBACK
    } else if i == 1 {
        IFF_BROADCAST
    } else if i == 2 {
        IFF_POINTOPOINT
    } else if i == 3 {
        IFF_MULTICAST
    } else if i == 4 {
        IFF_NOARP
    } else if i == 5 {
        IFF_ALLMULTI
    } else if i == 6 {
        IFF_PROMISC
    } else if i == 7 {
        IFF_MASTER
    } else if i == 8 {
        IFF_SLAVE
    } else if i == 9 {
        IFF_DEBUG
    } else if i == 10 {
        IFF_DYNAMIC
    } else if i == 11 {
        IFF_AUTOMEDIA
    } else if i == 12 {
        IFF_PORTSEL
    } else if i == 13 {
        IFF_NOTRAILERS
    } else if i == 14 {
        IFF_UP
    } else if i == 15 {
        IFF_LOWER_UP
    } else if i == 16 {
        IFF_DORMANT
    } else {
        IFF_ECHO
    };
    assert(printable_flag(i as int) == flag);
    flag
}

/// The printable name of a flag of the catalog.
pub fn print_flag_name(flag: u32) -> (name: &'static str)
    requires
        is_printable(flag),
    ensures
        name@ == flag_name(flag),
{
    if flag == IFF_LOOPBACK {
        "LOOPBACK"
    } else if flag == IFF_BROADCAST {
        "BROADCAST"
    } else if flag == IFF_POINTOPOINT {
        "POINTOPOINT"
    } else if flag == IFF_MULTICAST {
        "MULTICAST"
    } else if flag == IFF_NOARP {
        "NOARP"
    } else if flag == IFF_ALLMULTI {
        "ALLMULTI"
    } else if flag == IFF_PROMISC {
        "PROMISC"
    } else if flag == IFF_MASTER {
        "MASTER"
    } else if flag == IFF_SLAVE {
        "SLAVE"
    } else if flag == IFF_DEBUG {
        "DEBUG"
    } else if flag == IFF_DYNAMIC {
        "DYNAMIC"
    } else if flag == IFF_AUTOMEDIA {
        "AUTOMEDIA"
    } else if flag == IFF_PORTSEL {
        "PORTSEL"
    } else if flag == IFF_NOTRAILERS {
        "NOTRAILERS"
    } else if flag == IFF_UP {
        "UP"
    } else if flag == IFF_LOWER_UP {
        "LOWER_UP"
    } else if flag == IFF_DORMANT {
        "DORMANT"
    } else {
        "ECHO"
    }
}

/// The flag list of the summary for the bit set `flags`.
pub fn flags_str(flags: u32) -> (out: String)
    ensures
        out@ == flags_text(flags),
{
    let mut names: Vec<String> = Vec::new();
    let mut i: usize = 0;
    while i < PRINTABLE_FLAG_COUNT
        invariant
            i <= PRINTABLE_FLAG_COUNT,
            views(names@) == set_flag_names(flags, i as int),
        decreases PRINTABLE_FLAG_COUNT - i,
    {
        let flag = printable_flag_at(i);
        if flags & flag == flag {
            let ghost before = views(names@);
            let name = String::from_str(print_flag_name(flag));
            names.push(name);
            assert(views(names@) =~= before.push(flag_name(flag)));
        }
        i += 1;
    }
    join_strings(&names, ",")
}

/// The printable name of a group.
pub fn group_to_name(group: u32) -> (name: &'static str)
    ensures
        name@ == group_name(group),
{
    if group == 0 {
        "default"
    } else {
        "unknown"
    }
}

/// The printable name of an operational state.
pub fn state_to_name(state: u8) -> (name: &'static str)
    ensures
        name@ == state_name(state),
{
    if state == OPER_DOWN {
        "DOWN"
    } else if state == OPER_UP {
        "UP"
    } else {
        "UNKNOWN"
    }
}

/// The printable name of a hardware type.
pub fn type_to_name(link_type: u16) -> (name: &'static str)
    ensures
        name@ == hardware_name(link_type),
{
    if link_type == ARPHRD_LOOPBACK {
        "loopback"
    } else if link_type == ARPHRD_ETHER {
        "ether"
    } else {
        "unknown"
    }
}

/// The text of a hardware address of six bytes; an address of another
/// length has none.
pub fn print_mc_addr(addr: &[u8]) -> (text: Option<String>)
    ensures
        match mac_text_of(addr@) {
            Some(t) => text matches Some(s) && s@ == t,
            None => text is None,
        },
{
    if addr.len() != 6 {
        return None;
    }
    let mut hwprint: Vec<String> = Vec::new();
    let ghost all = Seq::new(addr@.len(), |i: int| hex_byte(addr@[i]));
    let mut i: usize = 0;
    while i < addr.len()
        invariant
            i <= addr.len(),
            all == Seq::new(addr@.len(), |i: int| hex_byte(addr@[i])),
            views(hwprint@) == all.take(i as int),
        decreases addr.len() - i,
    {
        let ghost before = views(hwprint@);
        let mut byte = String::new();
        push_hex_byte(&mut byte, addr[i]);
        assert(byte@ =~= hex_byte(addr@[i as int]));
        hwprint.push(byte);
        assert(all[i as int] == hex_byte(addr@[i as int]));
        assert(views(hwprint@) =~= before.push(hex_byte(addr@[i as int])));
        assert(views(hwprint@) =~= all.take(i + 1));
        i += 1;
    }
    assert(all.take(addr.len() as int) =~= all);
    Some(join_strings(&hwprint, ":"))
}

} // verus!
