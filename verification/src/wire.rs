//! The wire form of attributes: a 16-bit length that counts the header,
//! a 16-bit tag, the payload, and zero bytes up to the alignment.

use vstd::prelude::*;
use crate::attr::{extend, AttrList, Attribute, Entries};
use crate::bytes::{pad_len, padding, u16_bytes, zeros, ByteOrder};
use crate::error::NlError;

verus! {

/// The longest attribute, header included, that the length field can
/// state.
pub const MAX_ATTR_LEN: usize = 0xffff;

/// True if the length of the entry, header included, fits its length
/// field.
pub open spec fn entry_fits(e: (u16, Seq<u8>)) -> bool {
    e.1.len() + 4 <= 0xffff
}

/// True if every entry fits its length field.
pub open spec fn all_fit(s: Entries) -> bool {
    forall|i: int| 0 <= i < s.len() ==> entry_fits(#[trigger] s[i])
}

/// The wire form of one entry.
pub open spec fn entry_wire(order: ByteOrder, e: (u16, Seq<u8>)) -> Seq<u8> {
    u16_bytes(order, (e.1.len() + 4) as u16) + u16_bytes(order, e.0) + e.1 + zeros(
        padding(e.1.len() as int),
    )
}

/// The wire form of a list: the wire forms of its entries in order.
pub open spec fn wire(order: ByteOrder, s: Entries) -> Seq<u8>
    decreases s.len(),
{
    if s.len() == 0 {
        Seq::<u8>::empty()
    } else {
        wire(order, s.drop_last()) + entry_wire(order, s.last())
    }
}

/// The wire form of an entry is a whole number of alignment units, at
/// least the header.
pub proof fn lemma_entry_wire_len(order: ByteOrder, e: (u16, Seq<u8>))
    ensures
        entry_wire(order, e).len() == 4 + e.1.len() + padding(e.1.len() as int),
        entry_wire(order, e).len() % 4 == 0,
        entry_wire(order, e).len() >= 4,
{
}

/// Appends `n` zero bytes.
fn push_zeros(out: &mut Vec<u8>, n: usize)
    ensures
        final(out)@ == old(out)@ + zeros(n as int),
{
    let ghost before = out@;
    let mut i: usize = 0;
    while i < n
        invariant
            i <= n,
            out@ == before + zeros(i as int),
        decreases n - i,
    {
        out.push(0u8);
        i += 1;
        assert(out@ =~= before + zeros(i as int));
    }
}

impl Attribute {
    /// An attribute with the given tag and payload.
    pub fn new(kind: u16, payload: Vec<u8>) -> (a: Attribute)
        ensures
            a@ == (kind, payload@),
    {
        Attribute { kind, payload }
    }

    /// Appends the wire form of this attribute to `out`.  An attribute
    /// too long for its length field is refused and `out` stays as it
    /// was.
    pub fn write(&self, order: ByteOrder, out: &mut Vec<u8>) -> (r: Result<(), NlError>)
        ensures
            entry_fits(self@) ==> r is Ok && final(out)@ == old(out)@ + entry_wire(order, self@),
            !entry_fits(self@) ==> r == Err::<(), NlError>(NlError::Ser) && final(out)@ == old(
                out,
            )@,
    {
        let n: usize = self.payload.len();
        if n > MAX_ATTR_LEN - 4 {
            return Err(NlError::Ser);
        }
        let ghost before = out@;
        let len_field = order.put_u16((n + 4) as u16);
        let tag_field = order.put_u16(self.kind);
        extend(out, len_field.as_slice());
        extend(out, tag_field.as_slice());
        extend(out, self.payload.as_slice());
        push_zeros(out, pad_len(n));
        assert(out@ =~= before + entry_wire(order, self@));
        Ok(())
    }

    /// Appends `inner` in its wire form to the payload of this attribute,
    /// which thereby holds a nested list.  An inner attribute too long
    /// for its length field is refused and nothing changes.
    pub fn add_nested_attribute(&mut self, order: ByteOrder, inner: &Attribute) -> (r: Result<
        (),
        NlError,
    >)
        ensures
            final(self).kind == old(self).kind,
            entry_fits(inner@) ==> r is Ok && final(self).payload@ == old(self).payload@
                + entry_wire(order, inner@),
            !entry_fits(inner@) ==> r == Err::<(), NlError>(NlError::Ser) && final(self).payload@
                == old(self).payload@,
    {
        inner.write(order, &mut self.payload)
    }
}

impl AttrList {
    /// The wire form of the list.  A list with an attribute too long for
    /// its length field has none.
    pub fn to_bytes(&self) -> (r: Result<Vec<u8>, NlError>)
        ensures
            all_fit(self@) ==> (r matches Ok(b) && b@ == wire(self.order, self@)),
            !all_fit(self@) ==> r == Err::<Vec<u8>, NlError>(NlError::Ser),
    {
        let mut out: Vec<u8> = Vec::new();
        let mut i: usize = 0;
        while i < self.attrs.len()
            invariant
                i <= self.attrs.len(),
                all_fit(self@.take(i as int)),
                out@ == wire(self.order, self@.take(i as int)),
            decreases self.attrs.len() - i,
        {
            let ghost prefix = self@.take(i as int);
            let ghost next = self@.take(i + 1);
            assert(next.drop_last() =~= prefix);
            assert(next.last() == self@[i as int]);
            match self.attrs[i].write(self.order, &mut out) {
                Ok(()) => {},
                Err(e) => {
                    assert(!entry_fits(self@[i as int]));
                    return Err(NlError::Ser);
                },
            }
            assert forall|j: int| 0 <= j < next.len() implies entry_fits(#[trigger] next[j]) by {
                if j < i {
                    assert(next[j] == prefix[j]);
                }
            }
            i += 1;
        }
        assert(self@.take(self.attrs.len() as int) =~= self@);
        Ok(out)
    }

    /// Appends an entry whose payload is the wire form of `inner`: a
    /// nested list under `outer_tag`.  Where `inner` has no wire form
    /// nothing is appended.
    pub fn add_nested(&mut self, outer_tag: u16, inner: &AttrList) -> (r: Result<(), NlError>)
        ensures
            final(self).order == old(self).order,
            all_fit(inner@) ==> r is Ok && final(self)@ == old(self)@.push(
                (outer_tag, wire(inner.order, inner@)),
            ),
            !all_fit(inner@) ==> r == Err::<(), NlError>(NlError::Ser) && final(self)@ == old(
                self,
            )@,
    {
        match inner.to_bytes() {
            Ok(payload) => {
                self.put_bytes(outer_tag, payload.as_slice());
                Ok(())
            },
            Err(e) => Err(NlError::Ser),
        }
    }
}

} // verus!
