//! Attribute lists: ordered pairs of a tag and raw bytes, with typed
//! access to the payload of the first attribute that carries a tag.

use vstd::prelude::*;
use vstd::string::StringSliceAdditionalSpecFns;
use vstd::utf8::{decode_utf8, valid_utf8};
use crate::bytes::{i32_bytes, i32_value, u32_bytes, u32_value, ByteOrder};
use crate::error::NlError;

verus! {

/// What an attribute list is: its entries in order, each a tag and the
/// bytes of its payload.
pub type Entries = Seq<(u16, Seq<u8>)>;

/// True if some entry of `s` carries `tag`.
pub open spec fn has_tag(s: Entries, tag: u16) -> bool {
    exists|i: int| 0 <= i < s.len() && (#[trigger] s[i]).0 == tag
}

/// True if `i` is the place of the first entry of `s` that carries `tag`.
pub open spec fn is_first(s: Entries, tag: u16, i: int) -> bool {
    &&& 0 <= i < s.len()
    &&& s[i].0 == tag
    &&& forall|j: int| 0 <= j < i ==> (#[trigger] s[j]).0 != tag
}

/// The place of the first entry of `s` that carries `tag`.
pub open spec fn first_index(s: Entries, tag: u16) -> int {
    choose|i: int| is_first(s, tag, i)
}

/// The payload of the first entry of `s` that carries `tag`.
pub open spec fn find(s: Entries, tag: u16) -> Option<Seq<u8>> {
    if has_tag(s, tag) {
        Some(s[first_index(s, tag)].1)
    } else {
        None
    }
}

/// The payload of a string: its bytes and a terminating zero.
pub open spec fn str_payload(chars: Seq<char>) -> Seq<u8> {
    vstd::utf8::encode_utf8(chars).push(0u8)
}

/// The string that a payload holds: all its bytes but the last, if the
/// payload is not empty and those bytes are well-formed.
pub open spec fn payload_str(p: Seq<u8>) -> Option<Seq<char>> {
    if p.len() >= 1 && valid_utf8(p.drop_last()) {
        Some(decode_utf8(p.drop_last()))
    } else {
        None
    }
}

/// Walks `s` from `from`, before which no entry carries `tag`, to the first
/// entry that does.
proof fn lemma_scan(s: Entries, tag: u16, from: int, witness: int)
    requires
        0 <= from <= witness < s.len(),
        s[witness].0 == tag,
        forall|j: int| 0 <= j < from ==> (#[trigger] s[j]).0 != tag,
    ensures
        exists|i: int| is_first(s, tag, i),
    decreases witness - from,
{
    if s[from].0 == tag {
        assert(is_first(s, tag, from));
    } else {
        lemma_scan(s, tag, from + 1, witness);
    }
}

/// Where some entry carries the tag, one of them is the first.
pub proof fn lemma_first_exists(s: Entries, tag: u16)
    requires
        has_tag(s, tag),
    ensures
        is_first(s, tag, first_index(s, tag)),
{
    let w = choose|i: int| 0 <= i < s.len() && (#[trigger] s[i]).0 == tag;
    lemma_scan(s, tag, 0, w);
}

/// A first entry with the tag is the one that `first_index` names.
pub proof fn lemma_first_is_unique(s: Entries, tag: u16, i: int)
    requires
        is_first(s, tag, i),
    ensures
        has_tag(s, tag),
        first_index(s, tag) == i,
        find(s, tag) == Some(s[i].1),
{
    let k = first_index(s, tag);
    assert(is_first(s, tag, k));
    if k < i {
        assert(s[k].0 != tag);
    }
    if i < k {
        assert(s[i].0 != tag);
    }
}

/// An entry appended to a list is found only if no earlier entry carries
/// its tag; the entries that were found before are still the ones found.
pub proof fn lemma_find_after_push(s: Entries, tag: u16, payload: Seq<u8>, wanted: u16)
    ensures
        find(s.push((tag, payload)), wanted) == (if has_tag(s, wanted) {
            find(s, wanted)
        } else if wanted == tag {
            Some(payload)
        } else {
            None
        }),
{
    let t = s.push((tag, payload));
    if has_tag(s, wanted) {
        let k = first_index(s, wanted);
        lemma_first_exists(s, wanted);
        assert(t[k] == s[k]);
        assert forall|j: int| 0 <= j < k implies (#[trigger] t[j]).0 != wanted by {
            assert(t[j] == s[j]);
        }
        lemma_first_is_unique(t, wanted, k);
    } else if wanted == tag {
        let k = s.len() as int;
        assert(t[k] == (tag, payload));
        assert forall|j: int| 0 <= j < k implies (#[trigger] t[j]).0 != wanted by {
            assert(t[j] == s[j]);
        }
        lemma_first_is_unique(t, wanted, k);
    } else {
        if has_tag(t, wanted) {
            let k = choose|i: int| 0 <= i < t.len() && (#[trigger] t[i]).0 == wanted;
            assert(k < s.len());
            assert(t[k] == s[k]);
            assert(false);
        }
    }
}

/// One attribute: a tag and the raw bytes of its payload.
#[derive(Debug)]
pub struct Attribute {
    pub kind: u16,
    pub payload: Vec<u8>,
}

impl View for Attribute {
    type V = (u16, Seq<u8>);

    open spec fn view(&self) -> (u16, Seq<u8>) {
        (self.kind, self.payload@)
    }
}

/// An ordered list of attributes.  Several entries may carry one tag; the
/// accessors read the first.
#[derive(Debug)]
pub struct AttrList {
    /// The byte order of the integers in the payloads.
    pub order: ByteOrder,
    pub attrs: Vec<Attribute>,
}

impl View for AttrList {
    type V = Entries;

    open spec fn view(&self) -> Entries {
        Seq::new(self.attrs@.len(), |i: int| self.attrs@[i]@)
    }
}

/// A copy of `src`.
pub fn to_vec(src: &[u8]) -> (out: Vec<u8>)
    ensures
        out@ == src@,
{
    let mut out: Vec<u8> = Vec::new();
    let mut i: usize = 0;
    while i < src.len()
        invariant
            i <= src.len(),
            out@ == src@.take(i as int),
        decreases src.len() - i,
    {
        out.push(src[i]);
        i += 1;
        assert(out@ =~= src@.take(i as int));
    }
    assert(src@.take(src.len() as int) =~= src@);
    out
}

/// Appends `src` to `dst`.
pub fn extend(dst: &mut Vec<u8>, src: &[u8])
    ensures
        final(dst)@ == old(dst)@ + src@,
{
    let ghost before = dst@;
    let mut i: usize = 0;
    while i < src.len()
        invariant
            i <= src.len(),
            dst@ == before + src@.take(i as int),
        decreases src.len() - i,
    {
        dst.push(src[i]);
        i += 1;
        assert(dst@ =~= before + src@.take(i as int));
    }
    assert(src@.take(src.len() as int) =~= src@);
}

/// The string that well-formed bytes spell, as `String::from_utf8` of std
/// gives it; ill-formed bytes give nothing.
#[verifier::external_body]
fn string_from_utf8(bytes: Vec<u8>) -> (r: Option<String>)
    ensures
        r matches Some(s) ==> valid_utf8(bytes@) && s@ == decode_utf8(bytes@),
        r is None ==> !valid_utf8(bytes@),
{
    String::from_utf8(bytes).ok()
}

impl AttrList {
    /// An empty list whose integers stand in the order of this machine.
    pub fn new() -> (list: AttrList)
        ensures
            list@ == Seq::<(u16, Seq<u8>)>::empty(),
    {
        AttrList::with_order(ByteOrder::native())
    }

    /// An empty list whose integers stand in the given order.
    pub fn with_order(order: ByteOrder) -> (list: AttrList)
        ensures
            list@ == Seq::<(u16, Seq<u8>)>::empty(),
            list.order == order,
    {
        let list = AttrList { order, attrs: Vec::new() };
        assert(list@ =~= Seq::<(u16, Seq<u8>)>::empty());
        list
    }

    /// The number of entries.
    pub fn len(&self) -> (n: usize)
        ensures
            n == self@.len(),
    {
        self.attrs.len()
    }

    /// Appends an entry whose payload is `payload`, verbatim.
    pub fn put_bytes(&mut self, tag: u16, payload: &[u8])
        ensures
            final(self)@ == old(self)@.push((tag, payload@)),
            final(self).order == old(self).order,
    {
        let attr = Attribute { kind: tag, payload: to_vec(payload) };
        self.attrs.push(attr);
        assert(self@ =~= old(self)@.push((tag, payload@)));
    }

    /// Appends an entry that holds `value` as four bytes.
    pub fn put_u32(&mut self, tag: u16, value: u32)
        ensures
            final(self)@ == old(self)@.push((tag, u32_bytes(old(self).order, value))),
            final(self).order == old(self).order,
    {
        let payload = self.order.put_u32(value);
        self.put_bytes(tag, payload.as_slice());
    }

    /// Appends an entry that holds `value` as four bytes in two's
    /// complement.
    pub fn put_i32(&mut self, tag: u16, value: i32)
        ensures
            final(self)@ == old(self)@.push((tag, i32_bytes(old(self).order, value))),
            final(self).order == old(self).order,
    {
        let payload = self.order.put_i32(value);
        self.put_bytes(tag, payload.as_slice());
    }

    /// Appends an entry that holds `value` and a terminating zero byte.
    pub fn put_str(&mut self, tag: u16, value: &str)
        ensures
            final(self)@ == old(self)@.push((tag, str_payload(value@))),
            final(self).order == old(self).order,
    {
        let mut payload = to_vec(value.as_bytes());
        payload.push(0u8);
        self.put_bytes(tag, payload.as_slice());
    }

    /// The place of the first entry that carries `tag`.
    pub fn position(&self, tag: u16) -> (at: Option<usize>)
        ensures
            match at {
                Some(i) => is_first(self@, tag, i as int),
                None => !has_tag(self@, tag),
            },
    {
        let mut i: usize = 0;
        while i < self.attrs.len()
            invariant
                i <= self.attrs.len(),
                forall|j: int| 0 <= j < i ==> (#[trigger] self@[j]).0 != tag,
            decreases self.attrs.len() - i,
        {
            if self.attrs[i].kind == tag {
                return Some(i);
            }
            i += 1;
        }
        None
    }

    /// The raw payload of the first entry that carries `tag`.
    pub fn get_bytes(&self, tag: u16) -> (r: Result<Vec<u8>, NlError>)
        ensures
            match find(self@, tag) {
                Some(p) => r matches Ok(v) && v@ == p,
                None => r == Err::<Vec<u8>, NlError>(NlError::De),
            },
    {
        match self.position(tag) {
            Some(i) => {
                proof {
                    lemma_first_is_unique(self@, tag, i as int);
                }
                Ok(to_vec(self.attrs[i].payload.as_slice()))
            },
            None => Err(NlError::De),
        }
    }

    /// The first entry that carries `tag`, read as one byte.  An entry of
    /// another length, or none, is a decode failure.
    pub fn get_u8(&self, tag: u16) -> (r: Result<u8, NlError>)
        ensures
            r == (match find(self@, tag) {
                Some(p) if p.len() == 1 => Ok(p[0]),
                _ => Err(NlError::De),
            }),
    {
        match self.position(tag) {
            Some(i) => {
                proof {
                    lemma_first_is_unique(self@, tag, i as int);
                }
                let p = &self.attrs[i].payload;
                if p.len() == 1 {
                    Ok(p[0])
                } else {
                    Err(NlError::De)
                }
            },
            None => Err(NlError::De),
        }
    }

    /// The first entry that carries `tag`, read as four bytes.  An entry
    /// of another length, or none, is a decode failure.
    pub fn get_u32(&self, tag: u16) -> (r: Result<u32, NlError>)
        ensures
            r == (match find(self@, tag) {
                Some(p) if p.len() == 4 => Ok(u32_value(self.order, p)),
                _ => Err(NlError::De),
            }),
    {
        match self.position(tag) {
            Some(i) => {
                proof {
                    lemma_first_is_unique(self@, tag, i as int);
                }
                match self.order.get_u32(self.attrs[i].payload.as_slice()) {
                    Some(v) => Ok(v),
                    None => Err(NlError::De),
                }
            },
            None => Err(NlError::De),
        }
    }

    /// The first entry that carries `tag`, read as four bytes in two's
    /// complement.  An entry of another length, or none, is a decode
    /// failure.
    pub fn get_i32(&self, tag: u16) -> (r: Result<i32, NlError>)
        ensures
            r == (match find(self@, tag) {
                Some(p) if p.len() == 4 => Ok(i32_value(self.order, p)),
                _ => Err(NlError::De),
            }),
    {
        match self.position(tag) {
            Some(i) => {
                proof {
                    lemma_first_is_unique(self@, tag, i as int);
                }
                match self.order.get_i32(self.attrs[i].payload.as_slice()) {
                    Some(v) => Ok(v),
                    None => Err(NlError::De),
                }
            },
            None => Err(NlError::De),
        }
    }

    /// The first entry that carries `tag`, read as a string: its last
    /// byte, the terminator, is dropped.  An empty payload, ill-formed
    /// bytes, or no entry at all is a decode failure.
    pub fn get_string(&self, tag: u16) -> (r: Result<String, NlError>)
        ensures
            match find(self@, tag) {
                Some(p) if payload_str(p) is Some => r matches Ok(s) && s@ == payload_str(
                    p,
                )->Some_0,
                _ => r == Err::<String, NlError>(NlError::De),
            },
    {
        match self.position(tag) {
            Some(i) => {
                proof {
                    lemma_first_is_unique(self@, tag, i as int);
                }
                let p = &self.attrs[i].payload;
                if p.len() == 0 {
                    return Err(NlError::De);
                }
                let mut body = to_vec(p.as_slice());
                body.pop();
                assert(body@ =~= p@.drop_last());
                match string_from_utf8(body) {
                    Some(s) => Ok(s),
                    None => Err(NlError::De),
                }
            },
            None => Err(NlError::De),
        }
    }

    /// Gives the first entry that carries `tag` the payload `payload`;
    /// where no entry carries the tag, one is appended.  Afterwards the
    /// tag reads as `payload`, and every other entry is as it was.
    pub fn set_bytes(&mut self, tag: u16, payload: &[u8])
        ensures
            final(self).order == old(self).order,
            final(self)@ == replaced(old(self)@, tag, payload@),
            find(final(self)@, tag) == Some(payload@),
    {
        match self.position(tag) {
            Some(i) => {
                let attr = Attribute { kind: tag, payload: to_vec(payload) };
                self.attrs.set(i, attr);
                proof {
                    lemma_first_is_unique(old(self)@, tag, i as int);
                    assert(self@ =~= old(self)@.update(i as int, (tag, payload@)));
                    assert forall|j: int| 0 <= j < i implies (#[trigger] self@[j]).0 != tag by {
                        assert(self@[j] == old(self)@[j]);
                    }
                    lemma_first_is_unique(self@, tag, i as int);
                }
            },
            None => {
                self.put_bytes(tag, payload);
                proof {
                    lemma_find_after_push(old(self)@, tag, payload@, tag);
                }
            },
        }
    }
}

/// The entries `s` with the payload of the first entry that carries `tag`
/// replaced by `payload`, or with such an entry appended where there is
/// none.
pub open spec fn replaced(s: Entries, tag: u16, payload: Seq<u8>) -> Entries {
    if has_tag(s, tag) {
        s.update(first_index(s, tag), (tag, payload))
    } else {
        s.push((tag, payload))
    }
}

} // verus!
