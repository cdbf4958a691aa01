//! The pure parts of the scalar control path: fixed-format request
//! fields and the values that go into them.

use vstd::prelude::*;
use vstd::string::StringSliceAdditionalSpecFns;
use crate::error::ScalarError;

verus! {

/// Copies as many leading bytes of `src` into the front of `dst` as both
/// hold, and says how many.
pub fn copy_slice(dst: &mut [u8], src: &[u8]) -> (c: usize)
    ensures
        c == (if old(dst)@.len() <= src@.len() {
            old(dst)@.len()
        } else {
            src@.len()
        }),
        final(dst)@ == src@.take(c as int) + old(dst)@.skip(c as int),
{
    let mut c: usize = 0;
    while c < dst.len() && c < src.len()
        invariant
            c <= dst@.len(),
            c <= src@.len(),
            dst@.len() == old(dst)@.len(),
            dst@ == src@.take(c as int) + old(dst)@.skip(c as int),
        decreases src.len() - c,
    {
        dst[c] = src[c];
        c += 1;
        assert(dst@ =~= src@.take(c as int) + old(dst)@.skip(c as int));
    }
    c
}

/// The value of one hexadecimal digit, upper or lower case.
pub open spec fn hex_digit(c: u8) -> Option<int> {
    if 48 <= c <= 57 {
        Some(c - 48)
    } else if 97 <= c <= 102 {
        Some(c - 87)
    } else if 65 <= c <= 70 {
        Some(c - 55)
    } else {
        None
    }
}

/// The number that hexadecimal digits spell, most significant first.
/// Anything but digits spells none.
pub open spec fn digits_value(d: Seq<u8>) -> Option<int>
    decreases d.len(),
{
    if d.len() == 0 {
        Some(0)
    } else {
        match (digits_value(d.drop_last()), hex_digit(d.last())) {
            (Some(v), Some(x)) => Some(16 * v + x),
            _ => None,
        }
    }
}

/// The digits of a group: the group without a leading plus sign.
pub open spec fn group_digits(g: Seq<u8>) -> Seq<u8> {
    if g.len() > 0 && g[0] == 43 {
        g.skip(1)
    } else {
        g
    }
}

/// The byte that a group of an address spells: one or more hexadecimal
/// digits, with or without a plus sign before them, whose number fits a
/// byte.
pub open spec fn group_value(g: Seq<u8>) -> Option<u8> {
    let d = group_digits(g);
    match digits_value(d) {
        Some(v) if d.len() > 0 && v <= 255 => Some(v as u8),
        _ => None,
    }
}

/// The place of the first colon in `b`, or the length of `b` if it holds
/// none.
pub open spec fn first_colon(b: Seq<u8>) -> int
    decreases b.len(),
{
    if b.len() == 0 || b[0] == 58 {
        0
    } else {
        1 + first_colon(b.skip(1))
    }
}

/// The pieces of `b` between its colons, in order.  Text without a colon
/// is one piece; two colons in a row hold an empty piece.
pub open spec fn split_colon(b: Seq<u8>) -> Seq<Seq<u8>>
    decreases b.len(),
{
    let i = first_colon(b);
    if 0 <= i < b.len() {
        seq![b.take(i)] + split_colon(b.skip(i + 1))
    } else {
        seq![b]
    }
}

/// The six bytes of a hardware address written as six groups separated
/// by colons.  Text of any other form spells no address.
pub open spec fn mac_of(b: Seq<u8>) -> Option<Seq<u8>> {
    let g = split_colon(b);
    if g.len() == 6 && (forall|i: int| 0 <= i < 6 ==> group_value(#[trigger] g[i]) is Some) {
        Some(Seq::new(6, |i: int| group_value(g[i])->Some_0))
    } else {
        None
    }
}

/// The signed byte with the same bits as `v`.
pub open spec fn as_signed(v: u8) -> i8 {
    if v < 128 {
        v as i8
    } else {
        (v - 256) as i8
    }
}

/// The fourteen-byte address field that holds `mac` in its first six
/// bytes and zeros after them.
pub open spec fn sa_data_of(mac: Seq<u8>) -> Seq<i8> {
    Seq::new(
        14,
        |i: int|
            if i < 6 {
                as_signed(mac[i])
            } else {
                0i8
            },
    )
}

/// The digits before a place spell a number, and no greater one, where
/// all the digits do.
proof fn lemma_digits_prefix(d: Seq<u8>, k: int)
    requires
        0 <= k <= d.len(),
        digits_value(d) is Some,
    ensures
        digits_value(d.take(k)) is Some,
        0 <= digits_value(d.take(k))->Some_0 <= digits_value(d)->Some_0,
    decreases d.len(),
{
    if k == d.len() {
        assert(d.take(k) =~= d);
        if d.len() > 0 {
            lemma_digits_prefix(d.drop_last(), d.len() - 1);
            assert(d.drop_last().take(d.len() - 1) =~= d.drop_last());
        }
    } else {
        lemma_digits_prefix(d.drop_last(), k);
        assert(d.drop_last().take(k) =~= d.take(k));
    }
}

/// The first colon is where the text before it holds none.
proof fn lemma_first_colon(b: Seq<u8>, n: int)
    requires
        0 <= n <= b.len(),
        forall|k: int| 0 <= k < n ==> b[k] != 58,
        n == b.len() || b[n] == 58,
    ensures
        first_colon(b) == n,
    decreases n,
{
    if n > 0 {
        let rest = b.skip(1);
        assert forall|k: int| 0 <= k < n - 1 implies rest[k] != 58 by {
            assert(rest[k] == b[k + 1]);
        }
        lemma_first_colon(rest, n - 1);
    }
}

/// The value of one hexadecimal digit.
fn hex_digit_value(c: u8) -> (v: Option<u8>)
    ensures
        match hex_digit(c) {
            Some(x) => v == Some(x as u8) && 0 <= x < 16,
            None => v is None,
        },
{
    if 48 <= c && c <= 57 {
        Some(c - 48)
    } else if 97 <= c && c <= 102 {
        Some(c - 87)
    } else if 65 <= c && c <= 70 {
        Some(c - 55)
    } else {
        None
    }
}

/// The byte that one group of an address spells.
pub fn parse_group(g: &[u8]) -> (v: Option<u8>)
    ensures
        v == group_value(g@),
{
    let start: usize = if g.len() > 0 && g[0] == 43 {
        1
    } else {
        0
    };
    let ghost d = group_digits(g@);
    assert(d =~= g@.skip(start as int));
    if start == g.len() {
        return None;
    }
    let mut value: u32 = 0;
    let mut i: usize = start;
    while i < g.len()
        invariant
            start <= i <= g.len(),
            start < g.len(),
            d == g@.skip(start as int),
            d == group_digits(g@),
            digits_value(d.take(i - start)) == Some(value as int),
            value <= 255,
        decreases g.len() - i,
    {
        let ghost next = d.take(i - start + 1);
        assert(next.drop_last() =~= d.take(i - start));
        assert(next.last() == g@[i as int]);
        assert(digits_value(next) == (match (digits_value(next.drop_last()), hex_digit(next.last())) {
            (Some(v), Some(x)) => Some(16 * v + x),
            _ => None,
        }));
        match hex_digit_value(g[i]) {
            Some(x) => {
                value = 16 * value + x as u32;
                if value > 255 {
                    proof {
                        if digits_value(d) is Some {
                            lemma_digits_prefix(d, i - start + 1);
                        }
                    }
                    return None;
                }
            },
            None => {
                proof {
                    if digits_value(d) is Some {
                        lemma_digits_prefix(d, i - start + 1);
                    }
                }
                return None;
            },
        }
        i += 1;
    }
    assert(d.take(g.len() - start) =~= d);
    Some(value as u8)
}

/// The pieces of `b` between its colons.
pub fn split_at_colons(b: &[u8]) -> (out: Vec<Vec<u8>>)
    ensures
        out@.len() == split_colon(b@).len(),
        forall|i: int| 0 <= i < out@.len() ==> (#[trigger] out@[i])@ == split_colon(b@)[i],
{
    let mut out: Vec<Vec<u8>> = Vec::new();
    let ghost mut done: Seq<Seq<u8>> = Seq::empty();
    let mut start: usize = 0;
    assert(b@.skip(0) =~= b@);
    assert(done + split_colon(b@) =~= split_colon(b@));
    loop
        invariant_except_break
            start <= b.len(),
            split_colon(b@) == done + split_colon(b@.skip(start as int)),
        invariant
            out@.len() == done.len(),
            forall|i: int| 0 <= i < out@.len() ==> (#[trigger] out@[i])@ == done[i],
        ensures
            split_colon(b@) == done,
        decreases b.len() - start,
    {
        let ghost rest = b@.skip(start as int);
        let mut end: usize = start;
        while end < b.len() && b[end] != 58
            invariant
                start <= end <= b.len(),
                forall|k: int| start <= k < end ==> b@[k] != 58,
            decreases b.len() - end,
        {
            end += 1;
        }
        proof {
            assert forall|k: int| 0 <= k < end - start implies rest[k] != 58 by {
                assert(rest[k] == b@[start + k]);
            }
            if end < b.len() {
                assert(rest[end - start] == b@[end as int]);
            }
            lemma_first_colon(rest, end - start);
        }
        let piece = crate::attr::to_vec(vstd::slice::slice_subrange(b, start, end));
        assert(piece@ =~= rest.take(end - start));
        out.push(piece);
        if end == b.len() {
            proof {
                assert(rest.take(end - start) =~= rest);
                done = done.push(rest);
                assert(split_colon(b@) =~= done);
            }
            break;
        }
        proof {
            assert(rest.skip(end - start + 1) =~= b@.skip(end + 1));
            let before = done;
            done = done.push(rest.take(end - start));
            assert(split_colon(b@) =~= done + split_colon(b@.skip(end + 1)));
        }
        start = end + 1;
    }
    out
}

/// Reads a hardware address written as six groups of hexadecimal digits
/// separated by colons into the first six bytes of a fourteen-byte
/// address field.  Any other text is an invalid argument.
pub fn parse_mac_addr(mac: &str) -> (r: Result<[i8; 14], ScalarError>)
    ensures
        match mac_of(mac.spec_bytes()) {
            Some(m) => r matches Ok(addr) && addr@ == sa_data_of(m),
            None => r is Err && r->Err_0 == (ScalarError::InvalidInput),
        },
{
    let mut addr: [i8; 14] = [0i8; 14];
    let mac_vec = split_at_colons(mac.as_bytes());
    let ghost groups = split_colon(mac.spec_bytes());
    if mac_vec.len() != 6 {
        return Err(ScalarError::InvalidInput);
    }
    let ghost mut bytes: Seq<u8> = Seq::empty();
    let mut x: usize = 0;
    while x < 6
        invariant
            x <= 6,
            mac_vec@.len() == 6,
            groups.len() == 6,
            groups == split_colon(mac.spec_bytes()),
            forall|i: int| 0 <= i < 6 ==> (#[trigger] mac_vec@[i])@ == groups[i],
            bytes.len() == x,
            forall|i: int| 0 <= i < x ==> group_value(#[trigger] groups[i]) == Some(bytes[i]),
            forall|i: int| 0 <= i < x ==> addr@[i] == as_signed(bytes[i]),
            forall|i: int| x <= i < 14 ==> addr@[i] == 0,
            addr@.len() == 14,
        decreases 6 - x,
    {
        match parse_group(mac_vec[x].as_slice()) {
            Some(data) => {
                addr[x] = if data < 128 {
                    data as i8
                } else {
                    ((data as i16) - 256) as i8
                };
                proof {
                    bytes = bytes.push(data);
                }
            },
            None => {
                assert(group_value(groups[x as int]) is None);
                return Err(ScalarError::InvalidInput);
            },
        }
        x += 1;
    }
    proof {
        let m = mac_of(mac.spec_bytes())->Some_0;
        assert(m =~= bytes);
        assert(addr@ =~= sa_data_of(m));
    }
    Ok(addr)
}

/// The error number that the operating system recorded last, as
/// `std::io::Error::last_os_error` reports it; none where the error is
/// not a plain number.
#[verifier::external_body]
fn last_os_error_number() -> Option<i32> {
    std::io::Error::last_os_error().raw_os_error()
}

/// The failure that the operating system recorded last.
pub fn last_err() -> (e: ScalarError)
    ensures
        e is Os || e is Unknown,
{
    error_of_number(last_os_error_number())
}

/// The failure that an error number of the operating system stands for;
/// an error without a number is reported as unknown.
pub fn error_of_number(number: Option<i32>) -> (e: ScalarError)
    ensures
        e == (match number {
            Some(errno) => ScalarError::Os { errno },
            None => ScalarError::Unknown,
        }),
{
    match number {
        Some(errno) => ScalarError::Os { errno },
        None => ScalarError::Unknown,
    }
}

/// The administrative-up bit in the sixteen flag bits of a scalar
/// request.
pub const IFF_UP_SHORT: i16 = 0x1;

/// The flags with the administrative-up bit set or cleared and all other
/// bits as they were.
pub open spec fn flags_with_up(flags: i16, up: bool) -> i16 {
    if up {
        flags | IFF_UP_SHORT
    } else {
        flags & !IFF_UP_SHORT
    }
}

/// True if the flags say that the interface is administratively up.
pub open spec fn flags_say_up(flags: i16) -> bool {
    flags & IFF_UP_SHORT == 1
}

/// The flags to write back so that the interface is brought up or down.
pub fn set_up_flags(flags: i16, up: bool) -> (out: i16)
    ensures
        out == flags_with_up(flags, up),
        flags_say_up(out) == up,
{
    assert(flags_say_up(flags_with_up(flags, up)) == up) by (bit_vector);
    if up {
        flags | IFF_UP_SHORT
    } else {
        flags & !IFF_UP_SHORT
    }
}

/// Whether flags that were read say that the interface is up.
pub fn get_up_flags(flags: i16) -> (up: bool)
    ensures
        up == flags_say_up(flags),
{
    (flags & IFF_UP_SHORT) == 1
}

/// Judges a change of state after the flags were read back: a state
/// other than the wanted one means that the change was not applied.
pub fn confirm_up(observed: bool, wanted: bool) -> (r: Result<(), ScalarError>)
    ensures
        r == (if observed == wanted {
            Ok(())
        } else {
            Err(ScalarError::NotApplied)
        }),
{
    if observed != wanted {
        return Err(ScalarError::NotApplied);
    }
    Ok(())
}

/// The mask of an IPv4 prefix as the number whose `prefix_length` low
/// bits are set.
pub open spec fn mask_of(prefix_length: u32) -> u32 {
    if prefix_length == 0 {
        0
    } else {
        u32::MAX >> ((32 - prefix_length) as u32)
    }
}

/// The mask of an IPv4 prefix.  A prefix longer than the address is an
/// invalid argument.
pub fn prefix_mask(prefix_length: u32) -> (r: Result<u32, ScalarError>)
    ensures
        r == (if prefix_length > 32 {
            Err(ScalarError::InvalidInput)
        } else {
            Ok(mask_of(prefix_length))
        }),
{
    if prefix_length > 32 {
        return Err(ScalarError::InvalidInput);
    }
    if prefix_length == 0 {
        Ok(0)
    } else {
        Ok(u32::MAX >> (32 - prefix_length))
    }
}

/// The unsigned byte with the same bits as `v`.
pub open spec fn as_unsigned(v: i8) -> u8 {
    if v >= 0 {
        v as u8
    } else {
        (v + 256) as u8
    }
}

/// The hardware address in the first six bytes of an address field.
pub fn mac_from_sa_data(sa_data: &[i8; 14]) -> (mac: [u8; 6])
    ensures
        forall|i: int| 0 <= i < 6 ==> mac@[i] == as_unsigned(sa_data@[i]),
{
    let mut mac: [u8; 6] = [0u8; 6];
    let mut i: usize = 0;
    while i < 6
        invariant
            i <= 6,
            forall|k: int| 0 <= k < i ==> mac@[k] == as_unsigned(sa_data@[k]),
        decreases 6 - i,
    {
        let v: i8 = sa_data[i];
        mac[i] = if v >= 0 {
            v as u8
        } else {
            ((v as i16) + 256) as u8
        };
        i += 1;
    }
    mac
}

/// The socket families to try for the control socket, in order: IPv4,
/// packet, IPv6.  After the third there is none left, and the failure of
/// the first attempt is the one to report.
pub fn ctl_family(attempt: usize) -> (family: Option<i32>)
    ensures
        family == (if attempt == 0 {
            Some(2i32)
        } else if attempt == 1 {
            Some(17i32)
        } else if attempt == 2 {
            Some(10i32)
        } else {
            None
        }),
{
    if attempt == 0 {
        Some(2)
    } else if attempt == 1 {
        Some(17)
    } else if attempt == 2 {
        Some(10)
    } else {
        None
    }
}

/// What a scalar request carries beside the interface name.
#[derive(Clone, Copy, Debug)]
pub enum IfrIfru {
    /// Nothing yet: the field is all zeros.
    Zeroed,
    /// The interface flags.
    Flags(i16),
    /// The MTU.
    Mtu(i32),
    /// The kernel index.
    Index(i32),
    /// An IPv4 address or mask, as the number whose memory image is the
    /// address.
    Addr4(u32),
    /// A hardware address field.
    Hwaddr([i8; 14]),
}

/// A scalar request: the name of the interface and one value.
#[derive(Clone, Copy, Debug)]
pub struct Ifreq {
    pub ifr_name: [u8; 16],
    pub ifr_ifru: IfrIfru,
}

/// The request that gives an interface an IPv6 address.
#[derive(Clone, Copy, Debug)]
pub struct Ifreq6 {
    pub addr: [u8; 16],
    pub prefix_length: u32,
    pub ifindex: u32,
}

/// The name field of a request for the interface `dev`: the bytes of the
/// name, cut at the width of the field, and zeros after them.
pub open spec fn name_field(dev: Seq<u8>) -> Seq<u8> {
    Seq::new(
        16,
        |i: int|
            if i < dev.len() {
                dev[i]
            } else {
                0u8
            },
    )
}

impl Ifreq {
    /// A request for the interface `dev` that carries no value yet.
    pub fn new(dev: &str) -> (req: Ifreq)
        ensures
            req.ifr_name@ == name_field(dev.spec_bytes()),
            req.ifr_ifru is Zeroed,
    {
        let mut name: [u8; 16] = [0u8; 16];
        copy_slice(&mut name, dev.as_bytes());
        assert(name@ =~= name_field(dev.spec_bytes()));
        Ifreq { ifr_name: name, ifr_ifru: IfrIfru::Zeroed }
    }
}

} // verus!
