//! The decisions of the command surface: which links to show, and how
//! the words of a command read.

use vstd::prelude::*;
use vstd::string::StringSliceAdditionalSpecFns;
use crate::error::IoError;
use crate::links::{summary, Interface};
use crate::netlink::name_of;

verus! {

/// True if `needle` stands in `hay` at the place `k`.
pub open spec fn occurs_at(hay: Seq<u8>, needle: Seq<u8>, k: int) -> bool {
    0 <= k && k + needle.len() <= hay.len() && hay.subrange(k, k + needle.len()) == needle
}

/// True if `needle` stands somewhere in `hay`.  The empty text stands in
/// every text.
pub open spec fn occurs(hay: Seq<u8>, needle: Seq<u8>) -> bool {
    exists|k: int| occurs_at(hay, needle, k)
}

/// True if an interface with the name `name`, if it has one, passes the
/// filter: no filter lets every interface pass; a filter lets those pass
/// whose name holds the filter's text.
pub open spec fn passes(name: Option<Seq<char>>, grep: Option<Seq<u8>>) -> bool {
    match grep {
        None => true,
        Some(g) => match name {
            Some(n) => occurs(vstd::utf8::encode_utf8(n), g),
            None => false,
        },
    }
}

/// The summaries of the first `n` interfaces that pass the filter, in
/// order; the first interface that passes but has no summary makes the
/// whole fail.
pub open spec fn shown(interfaces: Seq<Interface>, grep: Option<Seq<u8>>, n: int) -> Option<
    Seq<Seq<char>>,
>
    decreases n,
{
    if n <= 0 {
        Some(Seq::<Seq<char>>::empty())
    } else {
        match shown(interfaces, grep, n - 1) {
            None => None,
            Some(lines) => {
                let msg = interfaces[n - 1].interface.0;
                if !passes(name_of(msg.rtattrs@), grep) {
                    Some(lines)
                } else {
                    match summary(msg) {
                        Some(text) => Some(lines.push(text)),
                        None => None,
                    }
                }
            },
        }
    }
}

/// The truth value of a state word: "up" or "down", in any mix of upper
/// and lower case.
pub open spec fn state_of(word: Seq<u8>) -> Option<bool> {
    if word.len() == 2 && lower(word[0]) == 117 && lower(word[1]) == 112 {
        Some(true)
    } else if word.len() == 4 && lower(word[0]) == 100 && lower(word[1]) == 111 && lower(word[2])
        == 119 && lower(word[3]) == 110 {
        Some(false)
    } else {
        None
    }
}

/// The lower-case form of an ASCII letter; any other byte is itself.
pub open spec fn lower(c: u8) -> u8 {
    if 65 <= c <= 90 {
        (c + 32) as u8
    } else {
        c
    }
}

/// The number that decimal digits spell, most significant first.
pub open spec fn decimal_value(d: Seq<u8>) -> Option<int>
    decreases d.len(),
{
    if d.len() == 0 {
        Some(0)
    } else if 48 <= d.last() <= 57 {
        match decimal_value(d.drop_last()) {
            Some(v) => Some(10 * v + (d.last() - 48)),
            None => None,
        }
    } else {
        None
    }
}

/// The digits of a word: the word without a leading plus sign.
pub open spec fn digits_of(word: Seq<u8>) -> Seq<u8> {
    if word.len() > 0 && word[0] == 43 {
        word.skip(1)
    } else {
        word
    }
}

/// The number that a word spells: one or more decimal digits, with or
/// without a plus sign before them, whose number fits 32 bits.
pub open spec fn number_of(word: Seq<u8>) -> Option<u32> {
    let d = digits_of(word);
    match decimal_value(d) {
        Some(v) if d.len() > 0 && v <= u32::MAX => Some(v as u32),
        _ => None,
    }
}

/// The digits before a place spell a number, and no greater one, where
/// all the digits do.
proof fn lemma_decimal_prefix(d: Seq<u8>, k: int)
    requires
        0 <= k <= d.len(),
        decimal_value(d) is Some,
    ensures
        decimal_value(d.take(k)) is Some,
        0 <= decimal_value(d.take(k))->Some_0 <= decimal_value(d)->Some_0,
    decreases d.len(),
{
    if k == d.len() {
        assert(d.take(k) =~= d);
        if d.len() > 0 {
            lemma_decimal_prefix(d.drop_last(), d.len() - 1);
            assert(d.drop_last().take(d.len() - 1) =~= d.drop_last());
        }
    } else {
        lemma_decimal_prefix(d.drop_last(), k);
        assert(d.drop_last().take(k) =~= d.take(k));
    }
}

/// A listing that has failed stays failed however many interfaces
/// follow.
proof fn lemma_shown_fails(interfaces: Seq<Interface>, grep: Option<Seq<u8>>, m: int, n: int)
    requires
        0 <= m <= n,
        shown(interfaces, grep, m) is None,
    ensures
        shown(interfaces, grep, n) is None,
    decreases n - m,
{
    if m < n {
        lemma_shown_fails(interfaces, grep, m, n - 1);
    }
}

/// True if `needle` stands in `hay` at `k`.
fn matches_at(hay: &[u8], needle: &[u8], k: usize) -> (b: bool)
    requires
        k + needle@.len() <= hay@.len(),
    ensures
        b == occurs_at(hay@, needle@, k as int),
{
    let mut j: usize = 0;
    while j < needle.len()
        invariant
            j <= needle.len(),
            k + needle.len() <= hay.len(),
            forall|i: int| 0 <= i < j ==> hay@[k + i] == needle@[i],
        decreases needle.len() - j,
    {
        if hay[k + j] != needle[j] {
            assert(hay@.subrange(k as int, k + needle@.len())[j as int] == hay@[k + j]);
            return false;
        }
        j += 1;
    }
    assert(hay@.subrange(k as int, k + needle@.len()) =~= needle@);
    true
}

/// True if `needle` stands somewhere in `hay`.
pub fn contains(hay: &[u8], needle: &[u8]) -> (b: bool)
    ensures
        b == occurs(hay@, needle@),
{
    if needle.len() > hay.len() {
        return false;
    }
    let last: usize = hay.len() - needle.len();
    let mut k: usize = 0;
    loop
        invariant
            k <= last,
            last == hay.len() - needle.len(),
            needle.len() <= hay.len(),
            forall|i: int| 0 <= i < k ==> !occurs_at(hay@, needle@, i),
        decreases last - k,
    {
        if matches_at(hay, needle, k) {
            return true;
        }
        if k == last {
            return false;
        }
        k += 1;
    }
}

/// The summaries of the interfaces that pass the filter `grep`, in the
/// order of `interfaces`.
pub fn list_links(interfaces: &Vec<Interface>, grep: Option<&str>) -> (r: Result<
    Vec<String>,
    IoError,
>)
    ensures
        match shown(
            interfaces@,
            match grep {
                Some(g) => Some(g.spec_bytes()),
                None => None,
            },
            interfaces@.len() as int,
        ) {
            Some(lines) => r matches Ok(v) && crate::text::views(v@) == lines,
            None => r is Err && r->Err_0 == IoError::Decode,
        },
{
    let ghost filter: Option<Seq<u8>> = match grep {
        Some(g) => Some(g.spec_bytes()),
        None => None,
    };
    let mut lines: Vec<String> = Vec::new();
    assert(crate::text::views(lines@) =~= Seq::<Seq<char>>::empty());
    let mut i: usize = 0;
    while i < interfaces.len()
        invariant
            i <= interfaces.len(),
            filter == (match grep {
                Some(g) => Some(g.spec_bytes()),
                None => None,
            }),
            shown(interfaces@, filter, i as int) == Some(crate::text::views(lines@)),
        decreases interfaces.len() - i,
    {
        let interface = &interfaces[i];
        let ghost before = crate::text::views(lines@);
        let wanted = match grep {
            None => true,
            Some(g) => match interface.get_name() {
                Ok(name) => contains(name.as_str().as_bytes(), g.as_bytes()),
                Err(e) => false,
            },
        };
        assert(wanted == passes(name_of(interfaces@[i as int].interface.0.rtattrs@), filter));
        if wanted {
            match interface.print_info() {
                Ok(text) => {
                    lines.push(text);
                    assert(crate::text::views(lines@) =~= before.push(text@));
                },
                Err(e) => {
                    proof {
                        assert(shown(interfaces@, filter, i + 1) is None);
                        lemma_shown_fails(interfaces@, filter, i + 1, interfaces@.len() as int);
                    }
                    return Err(e);
                },
            }
        }
        i += 1;
    }
    Ok(lines)
}

/// Reads the state word of a command: "up" or "down" in any case.
pub fn parse_state(state: &str) -> (up: Option<bool>)
    ensures
        up == state_of(state.spec_bytes()),
{
    let w = state.as_bytes();
    if w.len() == 2 && to_lower(w[0]) == 117 && to_lower(w[1]) == 112 {
        Some(true)
    } else if w.len() == 4 && to_lower(w[0]) == 100 && to_lower(w[1]) == 111 && to_lower(w[2])
        == 119 && to_lower(w[3]) == 110 {
        Some(false)
    } else {
        None
    }
}

/// The lower-case form of an ASCII letter.
fn to_lower(c: u8) -> (l: u8)
    ensures
        l == lower(c),
{
    if 65 <= c && c <= 90 {
        c + 32
    } else {
        c
    }
}

/// Reads the MTU word of a command as a number.  A word that spells no
/// number gives nothing.
pub fn parse_mtu(word: &str) -> (mtu: Option<u32>)
    ensures
        mtu == number_of(word.spec_bytes()),
{
    let w = word.as_bytes();
    let start: usize = if w.len() > 0 && w[0] == 43 {
        1
    } else {
        0
    };
    let ghost d = digits_of(w@);
    assert(d =~= w@.skip(start as int));
    if start == w.len() {
        return None;
    }
    let mut value: u64 = 0;
    let mut i: usize = start;
    while i < w.len()
        invariant
            start <= i <= w.len(),
            start < w.len(),
            d == w@.skip(start as int),
            d == digits_of(w@),
            w@ == word.spec_bytes(),
            decimal_value(d.take(i - start)) == Some(value as int),
            value <= u32::MAX,
        decreases w.len() - i,
    {
        let ghost next = d.take(i - start + 1);
        assert(next.drop_last() =~= d.take(i - start));
        assert(next.last() == w@[i as int]);
        assert(decimal_value(next) == (if 48 <= next.last() <= 57 {
            match decimal_value(next.drop_last()) {
                Some(v) => Some(10 * v + (next.last() - 48)),
                None => None,
            }
        } else {
            None
        }));
        let c: u8 = w[i];
        if c < 48 || c > 57 {
            proof {
                if decimal_value(d) is Some {
                    lemma_decimal_prefix(d, i - start + 1);
                }
            }
            return None;
        }
        value = 10 * value + (c - 48) as u64;
        if value > 0xffff_ffff {
            proof {
                if decimal_value(d) is Some {
                    lemma_decimal_prefix(d, i - start + 1);
                }
            }
            return None;
        }
        i += 1;
    }
    assert(d.take(w.len() - start) =~= d);
    Some(value as u32)
}

} // verus!
