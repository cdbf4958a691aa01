//! Fixed-width integers as bytes, in either byte order, and the padding
//! rule of the protocol.

use vstd::prelude::*;
use crate::consts::ALIGNTO;

verus! {

/// The order in which the bytes of an integer stand in a payload.
#[derive(Clone, Copy, Debug, PartialEq, Eq, Structural)]
pub enum ByteOrder {
    /// Least significant byte first.
    Little,
    /// Most significant byte first.
    Big,
}

/// The two bytes of `v`, least significant first.
pub open spec fn u16_le(v: u16) -> Seq<u8> {
    seq![(v % 256) as u8, (v / 256) as u8]
}

/// The four bytes of `v`, least significant first.
pub open spec fn u32_le(v: u32) -> Seq<u8> {
    seq![
        (v % 256) as u8,
        (v / 256 % 256) as u8,
        (v / 65536 % 256) as u8,
        (v / 16777216) as u8,
    ]
}

/// The bytes of `v` in the given order.
pub open spec fn u16_bytes(order: ByteOrder, v: u16) -> Seq<u8> {
    match order {
        ByteOrder::Little => u16_le(v),
        ByteOrder::Big => u16_le(v).reverse(),
    }
}

/// The bytes of `v` in the given order.
pub open spec fn u32_bytes(order: ByteOrder, v: u32) -> Seq<u8> {
    match order {
        ByteOrder::Little => u32_le(v),
        ByteOrder::Big => u32_le(v).reverse(),
    }
}

/// The unsigned number with the same 32 bits as `v`.
pub open spec fn i32_bits(v: i32) -> u32 {
    if v >= 0 {
        v as u32
    } else {
        (v + 0x1_0000_0000) as u32
    }
}

/// The signed number with the same 32 bits as `v`.
pub open spec fn bits_i32(v: u32) -> i32 {
    if v < 0x8000_0000 {
        v as i32
    } else {
        (v - 0x1_0000_0000) as i32
    }
}

/// The bytes of `v` in the given order, in two's complement.
pub open spec fn i32_bytes(order: ByteOrder, v: i32) -> Seq<u8> {
    u32_bytes(order, i32_bits(v))
}

/// The number that two bytes hold, least significant first.
pub open spec fn le_u16(b: Seq<u8>) -> u16 {
    (b[0] as int + 256 * b[1] as int) as u16
}

/// The number that four bytes hold, least significant first.
pub open spec fn le_u32(b: Seq<u8>) -> u32 {
    (b[0] as int + 256 * b[1] as int + 65536 * b[2] as int + 16777216 * b[3] as int) as u32
}

/// The number that two bytes hold in the given order.
pub open spec fn u16_value(order: ByteOrder, b: Seq<u8>) -> u16 {
    match order {
        ByteOrder::Little => le_u16(b),
        ByteOrder::Big => le_u16(b.reverse()),
    }
}

/// The number that four bytes hold in the given order.
pub open spec fn u32_value(order: ByteOrder, b: Seq<u8>) -> u32 {
    match order {
        ByteOrder::Little => le_u32(b),
        ByteOrder::Big => le_u32(b.reverse()),
    }
}

/// The signed number that four bytes hold in the given order.
pub open spec fn i32_value(order: ByteOrder, b: Seq<u8>) -> i32 {
    bits_i32(u32_value(order, b))
}

/// `len` rounded up to the next multiple of the alignment.
pub open spec fn aligned(len: int) -> int {
    (len + 3) / 4 * 4
}

/// The number of zero bytes that follow `len` bytes to reach the alignment.
pub open spec fn padding(len: int) -> int {
    aligned(len) - len
}

/// `n` zero bytes.
pub open spec fn zeros(n: int) -> Seq<u8> {
    Seq::new(n as nat, |i: int| 0u8)
}

/// Reading gives back what was written, in either order and at each
/// width.
pub proof fn lemma_value_of_bytes(order: ByteOrder, a: u16, b: u32, c: i32)
    ensures
        u16_bytes(order, a).len() == 2,
        u32_bytes(order, b).len() == 4,
        i32_bytes(order, c).len() == 4,
        u16_value(order, u16_bytes(order, a)) == a,
        u32_value(order, u32_bytes(order, b)) == b,
        i32_value(order, i32_bytes(order, c)) == c,
{
    assert(u16_le(a).reverse().reverse() =~= u16_le(a));
    assert(u32_le(b).reverse().reverse() =~= u32_le(b));
    let cb = i32_bits(c);
    assert(u32_le(cb).reverse().reverse() =~= u32_le(cb));
    assert(le_u32(u32_le(cb)) == cb);
    assert(bits_i32(cb) == c);
}

/// The bytes of a number that four bytes hold are those four bytes.
proof fn lemma_le_u32_exact(b: Seq<u8>)
    requires
        b.len() == 4,
    ensures
        u32_le(le_u32(b)) == b,
{
    let b0 = b[0] as int;
    let b1 = b[1] as int;
    let b2 = b[2] as int;
    let b3 = b[3] as int;
    let v = b0 + 256 * b1 + 65536 * b2 + 16777216 * b3;
    assert(0 <= v <= u32::MAX);
    assert(v % 256 == b0);
    assert(v / 256 == b1 + 256 * b2 + 65536 * b3);
    assert(v / 256 % 256 == b1);
    assert(v / 65536 == b2 + 256 * b3);
    assert(v / 65536 % 256 == b2);
    assert(v / 16777216 == b3);
    assert(u32_le(le_u32(b)) =~= b);
}

/// The bytes of a number that two bytes hold are those two bytes.
proof fn lemma_le_u16_exact(b: Seq<u8>)
    requires
        b.len() == 2,
    ensures
        u16_le(le_u16(b)) == b,
{
    let b0 = b[0] as int;
    let b1 = b[1] as int;
    let v = b0 + 256 * b1;
    assert(v % 256 == b0);
    assert(v / 256 == b1);
    assert(u16_le(le_u16(b)) =~= b);
}

/// Writing gives back what was read: the bytes are determined by the
/// number they hold.
pub proof fn lemma_bytes_of_value(order: ByteOrder, two: Seq<u8>, four: Seq<u8>)
    requires
        two.len() == 2,
        four.len() == 4,
    ensures
        u16_bytes(order, u16_value(order, two)) == two,
        u32_bytes(order, u32_value(order, four)) == four,
        i32_bytes(order, i32_value(order, four)) == four,
{
    let r2 = two.reverse();
    let r4 = four.reverse();
    lemma_le_u16_exact(two);
    lemma_le_u16_exact(r2);
    lemma_le_u32_exact(four);
    lemma_le_u32_exact(r4);
    assert(r2.reverse() =~= two);
    assert(r4.reverse() =~= four);
    let v = u32_value(order, four);
    assert(i32_bits(bits_i32(v)) == v);
}

/// The memory image of the number one, sixteen bits wide, as
/// `u16::to_ne_bytes` of std gives it: the low byte stands first on a
/// little-endian machine and last on a big-endian one.
#[verifier::external_body]
fn one_in_memory() -> (b: [u8; 2])
    ensures
        b@ == seq![1u8, 0u8] || b@ == seq![0u8, 1u8],
{
    1u16.to_ne_bytes()
}

impl ByteOrder {
    /// The byte order of the machine that runs this code.
    pub fn native() -> (order: ByteOrder) {
        let image: [u8; 2] = one_in_memory();
        ByteOrder::from_image_of_one(&image)
    }

    /// The byte order of a machine on which the number one, sixteen bits
    /// wide, lies in memory as `image`: little-endian where the low byte
    /// stands first, big-endian otherwise.  Under that order the number
    /// one is written as `image`, where `image` is one of the two images
    /// that the number has.
    pub fn from_image_of_one(image: &[u8; 2]) -> (order: ByteOrder)
        ensures
            order == (if image@[0] == 1 {
                ByteOrder::Little
            } else {
                ByteOrder::Big
            }),
            image@ == seq![1u8, 0u8] || image@ == seq![0u8, 1u8] ==> u16_bytes(order, 1) == image@,
    {
        let order = if image[0] == 1 {
            ByteOrder::Little
        } else {
            ByteOrder::Big
        };
        proof {
            assert(u16_le(1) =~= seq![1u8, 0u8]);
            assert(u16_le(1).reverse() =~= seq![0u8, 1u8]);
        }
        order
    }

    /// Writes `v` as two bytes.
    pub fn put_u16(self, v: u16) -> (out: Vec<u8>)
        ensures
            out@ == u16_bytes(self, v),
    {
        let lo: u8 = (v % 256) as u8;
        let hi: u8 = (v / 256) as u8;
        let mut out: Vec<u8> = Vec::new();
        match self {
            ByteOrder::Little => {
                out.push(lo);
                out.push(hi);
                assert(out@ =~= u16_le(v));
            },
            ByteOrder::Big => {
                out.push(hi);
                out.push(lo);
                assert(out@ =~= u16_le(v).reverse());
            },
        }
        out
    }

    /// Writes `v` as four bytes.
    pub fn put_u32(self, v: u32) -> (out: Vec<u8>)
        ensures
            out@ == u32_bytes(self, v),
    {
        let b0: u8 = (v % 256) as u8;
        let b1: u8 = (v / 256 % 256) as u8;
        let b2: u8 = (v / 65536 % 256) as u8;
        let b3: u8 = (v / 16777216) as u8;
        let mut out: Vec<u8> = Vec::new();
        match self {
            ByteOrder::Little => {
                out.push(b0);
                out.push(b1);
                out.push(b2);
                out.push(b3);
                assert(out@ =~= u32_le(v));
            },
            ByteOrder::Big => {
                out.push(b3);
                out.push(b2);
                out.push(b1);
                out.push(b0);
                assert(out@ =~= u32_le(v).reverse());
            },
        }
        out
    }

    /// Writes `v` as four bytes in two's complement.
    pub fn put_i32(self, v: i32) -> (out: Vec<u8>)
        ensures
            out@ == i32_bytes(self, v),
    {
        let bits: u32 = if v >= 0 {
            v as u32
        } else {
            ((v as i64) + 0x1_0000_0000i64) as u32
        };
        self.put_u32(bits)
    }

    /// Reads two bytes as a number; any other length is refused.
    pub fn get_u16(self, b: &[u8]) -> (v: Option<u16>)
        ensures
            v == (if b@.len() == 2 {
                Some(u16_value(self, b@))
            } else {
                None
            }),
    {
        if b.len() != 2 {
            return None;
        }
        let (lo, hi): (u8, u8) = match self {
            ByteOrder::Little => (b[0], b[1]),
            ByteOrder::Big => (b[1], b[0]),
        };
        Some(lo as u16 + 256 * (hi as u16))
    }

    /// Reads four bytes as a number; any other length is refused.
    pub fn get_u32(self, b: &[u8]) -> (v: Option<u32>)
        ensures
            v == (if b@.len() == 4 {
                Some(u32_value(self, b@))
            } else {
                None
            }),
    {
        if b.len() != 4 {
            return None;
        }
        let (b0, b1, b2, b3): (u8, u8, u8, u8) = match self {
            ByteOrder::Little => (b[0], b[1], b[2], b[3]),
            ByteOrder::Big => (b[3], b[2], b[1], b[0]),
        };
        Some(b0 as u32 + 256 * (b1 as u32) + 65536 * (b2 as u32) + 16777216 * (b3 as u32))
    }

    /// Reads four bytes as a signed number; any other length is refused.
    pub fn get_i32(self, b: &[u8]) -> (v: Option<i32>)
        ensures
            v == (if b@.len() == 4 {
                Some(i32_value(self, b@))
            } else {
                None
            }),
    {
        match self.get_u32(b) {
            Some(bits) => {
                if bits < 0x8000_0000 {
                    Some(bits as i32)
                } else {
                    Some(((bits as i64) - 0x1_0000_0000i64) as i32)
                }
            },
            None => None,
        }
    }
}

/// The number of padding bytes after `len` bytes.
pub fn pad_len(len: usize) -> (n: usize)
    ensures
        n == padding(len as int),
        n < ALIGNTO,
{
    let rem: usize = len % 4;
    if rem == 0 {
        0
    } else {
        4 - rem
    }
}

} // verus!
