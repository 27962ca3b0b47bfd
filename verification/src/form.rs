//! `application/x-www-form-urlencoded` serialisation of name/value pairs.
use vstd::prelude::*;
use vstd::utf8::*;

verus! {

/// Bytes that the form serialiser copies unchanged.
pub open spec fn is_form_unreserved(b: u8) -> bool {
    b == 0x2a || b == 0x2d || b == 0x2e || b == 0x5f || (0x30 <= b && b <= 0x39) || (0x41 <= b
        && b <= 0x5a) || (0x61 <= b && b <= 0x7a)
}

/// An upper-case hexadecimal digit.
pub open spec fn hex_upper(d: nat) -> char {
    if d < 10 {
        ((48 + d) as u32) as char
    } else {
        ((55 + d) as u32) as char
    }
}

/// The serialisation of one byte.
pub open spec fn form_byte(b: u8) -> Seq<char> {
    if b == 0x20 {
        seq!['+']
    } else if is_form_unreserved(b) {
        seq![(b as u32) as char]
    } else {
        seq!['%', hex_upper((b / 16) as nat), hex_upper((b % 16) as nat)]
    }
}

/// The serialisation of a byte sequence.
pub open spec fn form_bytes(bs: Seq<u8>) -> Seq<char>
    decreases bs.len(),
{
    if bs.len() == 0 {
        Seq::empty()
    } else {
        form_bytes(bs.drop_last()) + form_byte(bs.last())
    }
}

/// The serialisation of a string (its UTF-8 bytes).
pub open spec fn form_component(s: Seq<char>) -> Seq<char> {
    form_bytes(encode_utf8(s))
}

/// The serialisation of one `name=value` pair.
pub open spec fn form_pair(p: (Seq<char>, Seq<char>)) -> Seq<char> {
    form_component(p.0) + seq!['='] + form_component(p.1)
}

/// The serialisation of a list of pairs, joined by `&`.
pub open spec fn form_pairs(ps: Seq<(Seq<char>, Seq<char>)>) -> Seq<char>
    decreases ps.len(),
{
    if ps.len() == 0 {
        Seq::empty()
    } else if ps.len() == 1 {
        form_pair(ps[0])
    } else {
        form_pairs(ps.drop_last()) + seq!['&'] + form_pair(ps.last())
    }
}

/// The character views of a list of string pairs.
pub open spec fn pair_views(ps: Seq<(String, String)>) -> Seq<(Seq<char>, Seq<char>)> {
    ps.map_values(|p: (String, String)| (p.0@, p.1@))
}

/// Executable hexadecimal digit.
fn hex_digit(d: u8) -> (c: char)
    requires
        d < 16,
    ensures
        c == hex_upper(d as nat),
{
    if d < 10 {
        (48u8 + d) as char
    } else {
        (55u8 + d) as char
    }
}

/// Appends the serialisation of one byte.
fn push_form_byte(out: &mut Vec<char>, b: u8)
    ensures
        final(out)@ == old(out)@ + form_byte(b),
{
    let ghost start = out@;
    if b == 0x20 {
        out.push('+');
    } else if b == 0x2a || b == 0x2d || b == 0x2e || b == 0x5f || (0x30 <= b && b <= 0x39) || (
    0x41 <= b && b <= 0x5a) || (0x61 <= b && b <= 0x7a) {
        out.push(b as char);
    } else {
        out.push('%');
        out.push(hex_digit(b / 16));
        out.push(hex_digit(b % 16));
    }
    assert(out@ =~= start + form_byte(b));
}

/// Appends the serialisation of a string.
pub fn push_form_component(out: &mut Vec<char>, s: &str)
    ensures
        final(out)@ == old(out)@ + form_component(s@),
{
    let bytes = s.as_bytes();
    let ghost start = out@;
    let mut i: usize = 0;
    while i < bytes.len()
        invariant
            i <= bytes@.len(),
            bytes@ == encode_utf8(s@),
            out@ == start + form_bytes(bytes@.take(i as int)),
        decreases bytes@.len() - i,
    {
        push_form_byte(out, bytes[i]);
        proof {
            assert(bytes@.take(i + 1).drop_last() =~= bytes@.take(i as int));
        }
        i = i + 1;
        assert(out@ =~= start + form_bytes(bytes@.take(i as int)));
    }
    assert(bytes@.take(bytes@.len() as int) =~= bytes@);
}

/// Serialises name/value pairs as a form body (`k1=v1&k2=v2`).
pub fn form_encode(pairs: &[(String, String)]) -> (r: String)
    ensures
        r@ == form_pairs(pair_views(pairs@)),
{
    let mut out: Vec<char> = Vec::new();
    let mut i: usize = 0;
    while i < pairs.len()
        invariant
            i <= pairs@.len(),
            out@ == form_pairs(pair_views(pairs@.take(i as int))),
        decreases pairs@.len() - i,
    {
        let ghost before = out@;
        if i > 0 {
            out.push('&');
        }
        push_form_component(&mut out, pairs[i].0.as_str());
        out.push('=');
        push_form_component(&mut out, pairs[i].1.as_str());
        proof {
            let ps = pair_views(pairs@.take(i + 1));
            assert(ps.drop_last() =~= pair_views(pairs@.take(i as int)));
            assert(ps.last() == (pairs@[i as int].0@, pairs@[i as int].1@));
            if i == 0 {
                assert(out@ =~= form_pair(ps[0]));
            } else {
                assert(out@ =~= before + seq!['&'] + form_pair(ps.last()));
            }
        }
        i = i + 1;
    }
    assert(pairs@.take(pairs@.len() as int) =~= pairs@);
    crate::text::string_of(&out)
}

/// Builds a pair of owned strings from two string slices.
pub fn pair(name: &str, value: &str) -> (p: (String, String))
    ensures
        p.0@ == name@,
        p.1@ == value@,
{
    (name.to_owned(), value.to_owned())
}

} // verus!
