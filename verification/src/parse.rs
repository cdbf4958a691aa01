//! Reading attributes back from their wire form.

use vstd::prelude::*;
use crate::attr::{to_vec, AttrList, Attribute, Entries};
use crate::bytes::{aligned, lemma_value_of_bytes, pad_len, u16_bytes, u16_value, ByteOrder};
use crate::error::NlError;
use crate::wire::{all_fit, entry_fits, entry_wire, wire};

verus! {

/// The first attribute in `b` and the number of bytes that it takes with
/// its padding.  There is none where `b` is shorter than a header, where
/// the stated length is shorter than a header, or where the stated
/// length with its padding is longer than `b`.
pub open spec fn first_entry(order: ByteOrder, b: Seq<u8>) -> Option<((u16, Seq<u8>), int)> {
    if b.len() < 4 {
        None
    } else {
        let len = u16_value(order, b.subrange(0, 2)) as int;
        let tag = u16_value(order, b.subrange(2, 4));
        if len < 4 || aligned(len) > b.len() {
            None
        } else {
            Some(((tag, b.subrange(4, len)), aligned(len)))
        }
    }
}

/// `head` put before the entries of a successful rest.
pub open spec fn before(head: Entries, rest: Option<Entries>) -> Option<Entries> {
    match rest {
        Some(r) => Some(head + r),
        None => None,
    }
}

/// The attributes that `b` holds one after the other, if `b` is made of
/// whole attributes and nothing else.
pub open spec fn parsed(order: ByteOrder, b: Seq<u8>) -> Option<Entries>
    decreases b.len(),
{
    if b.len() == 0 {
        Some(Seq::<(u16, Seq<u8>)>::empty())
    } else {
        match first_entry(order, b) {
            None => None,
            Some((e, n)) => if 0 < n <= b.len() {
                before(seq![e], parsed(order, b.skip(n)))
            } else {
                None
            },
        }
    }
}

/// The wire form of an entry that fits, followed by anything, begins
/// with that entry.
pub proof fn lemma_first_entry_of_wire(order: ByteOrder, e: (u16, Seq<u8>), rest: Seq<u8>)
    requires
        entry_fits(e),
    ensures
        first_entry(order, entry_wire(order, e) + rest) == Some(
            (e, entry_wire(order, e).len() as int),
        ),
        (entry_wire(order, e) + rest).skip(entry_wire(order, e).len() as int) == rest,
        entry_wire(order, e).len() >= 4,
{
    let w = entry_wire(order, e);
    let b = w + rest;
    let n = e.1.len() as int;
    lemma_value_of_bytes(order, (n + 4) as u16, 0, 0);
    lemma_value_of_bytes(order, e.0, 0, 0);
    assert(b.subrange(0, 2) =~= u16_bytes(order, (n + 4) as u16));
    assert(b.subrange(2, 4) =~= u16_bytes(order, e.0));
    assert(b.subrange(4, n + 4) =~= e.1);
    assert(w.len() == aligned(n + 4));
    assert(b.skip(w.len() as int) =~= rest);
}

/// The wire form of a list begins with the wire form of its first entry.
pub proof fn lemma_wire_front(order: ByteOrder, s: Entries)
    requires
        s.len() > 0,
    ensures
        wire(order, s) == entry_wire(order, s[0]) + wire(order, s.skip(1)),
    decreases s.len(),
{
    if s.len() == 1 {
        assert(s.drop_last() =~= Seq::<(u16, Seq<u8>)>::empty());
        assert(s.skip(1) =~= Seq::<(u16, Seq<u8>)>::empty());
        assert(wire(order, s) =~= entry_wire(order, s[0]) + wire(order, s.skip(1)));
    } else {
        let init = s.drop_last();
        lemma_wire_front(order, init);
        assert(init.skip(1) =~= s.skip(1).drop_last());
        assert(s.skip(1).last() == s.last());
        assert(init[0] == s[0]);
        assert(wire(order, s) =~= entry_wire(order, s[0]) + wire(order, s.skip(1)));
    }
}

/// What was written is what is read: the wire form of a list whose
/// entries all fit is read back as that list.
pub proof fn lemma_parse_of_wire(order: ByteOrder, s: Entries)
    requires
        all_fit(s),
    ensures
        parsed(order, wire(order, s)) == Some(s),
    decreases s.len(),
{
    if s.len() == 0 {
        assert(parsed(order, wire(order, s)) =~= Some(s));
    } else {
        let rest = s.skip(1);
        assert forall|i: int| 0 <= i < rest.len() implies entry_fits(#[trigger] rest[i]) by {
            assert(rest[i] == s[i + 1]);
        }
        lemma_parse_of_wire(order, rest);
        lemma_wire_front(order, s);
        lemma_first_entry_of_wire(order, s[0], wire(order, rest));
        assert(seq![s[0]] + rest =~= s);
    }
}

impl AttrList {
    /// Reads a list from its wire form.  Bytes that are not made of whole
    /// attributes are a decode failure.
    pub fn from_bytes(order: ByteOrder, b: &[u8]) -> (r: Result<AttrList, NlError>)
        ensures
            match parsed(order, b@) {
                Some(s) => r matches Ok(list) && list@ == s && list.order == order,
                None => r is Err && r->Err_0 == NlError::De,
            },
    {
        let mut list = AttrList::with_order(order);
        let mut pos: usize = 0;
        assert(b@.skip(0) =~= b@);
        assert(list@ + parsed(order, b@)->Some_0 =~= parsed(order, b@)->Some_0);
        while pos < b.len()
            invariant
                pos <= b.len(),
                list.order == order,
                parsed(order, b@) == before(list@, parsed(order, b@.skip(pos as int))),
            decreases b.len() - pos,
        {
            let ghost rest = b@.skip(pos as int);
            let ghost head = list@;
            if b.len() - pos < 4 {
                return Err(NlError::De);
            }
            let len_field = vstd::slice::slice_subrange(b, pos, pos + 2);
            let tag_field = vstd::slice::slice_subrange(b, pos + 2, pos + 4);
            assert(len_field@ =~= rest.subrange(0, 2));
            assert(tag_field@ =~= rest.subrange(2, 4));
            let len: usize = match order.get_u16(len_field) {
                Some(v) => v as usize,
                None => {
                    return Err(NlError::De);
                },
            };
            let tag: u16 = match order.get_u16(tag_field) {
                Some(v) => v,
                None => {
                    return Err(NlError::De);
                },
            };
            if len < 4 {
                return Err(NlError::De);
            }
            let total: usize = len + pad_len(len);
            assert(total == aligned(len as int));
            if total > b.len() - pos {
                return Err(NlError::De);
            }
            let payload = to_vec(vstd::slice::slice_subrange(b, pos + 4, pos + len));
            assert(payload@ =~= rest.subrange(4, len as int));
            list.attrs.push(Attribute::new(tag, payload));
            assert(list@ =~= head.push((tag, payload@)));
            proof {
                assert(rest.skip(total as int) =~= b@.skip(pos + total));
                let tail = parsed(order, rest.skip(total as int));
                if tail is Some {
                    assert(head + (seq![(tag, payload@)] + tail->Some_0) =~= head.push(
                        (tag, payload@),
                    ) + tail->Some_0);
                }
            }
            pos = pos + total;
        }
        assert(b@.skip(b.len() as int) =~= Seq::<u8>::empty());
        assert(list@ + Seq::<(u16, Seq<u8>)>::empty() =~= list@);
        Ok(list)
    }

    /// The list nested in the first entry that carries `tag`.
    pub fn get_nested(&self, tag: u16) -> (r: Result<AttrList, NlError>)
        ensures
            match crate::attr::find(self@, tag) {
                Some(p) => match parsed(self.order, p) {
                    Some(s) => r matches Ok(list) && list@ == s && list.order == self.order,
                    None => r is Err && r->Err_0 == NlError::De,
                },
                None => r is Err && r->Err_0 == NlError::De,
            },
    {
        match self.get_bytes(tag) {
            Ok(payload) => AttrList::from_bytes(self.order, payload.as_slice()),
            Err(e) => Err(NlError::De),
        }
    }
}

} // verus!
