//! On-screen width of renderer HTML: tags removed, entities decoded.

use vstd::prelude::*;

use crate::text::{chars_eq, find_char, find_char_from, lemma_find_char, to_chars};

verus! {

/// The text left after removing every closed tag except a literal `<>`; an
/// unclosed `<` and everything after it stays.
pub open spec fn strip_tags(s: Seq<char>) -> Seq<char>
    decreases s.len(),
{
    if s.len() == 0 {
        Seq::empty()
    } else if s[0] != '<' {
        seq![s[0]] + strip_tags(s.drop_first())
    } else {
        proof {
            lemma_find_char(s.drop_first(), '>');
        }
        match find_char(s.drop_first(), '>') {
            None => s,
            Some(j) => if j == 0 {
                seq!['<', '>'] + strip_tags(s.skip(2))
            } else {
                strip_tags(s.skip(j + 2))
            },
        }
    }
}

/// The value of a digit character in `radix`.
pub open spec fn digit_value(c: char, radix: nat) -> Option<nat> {
    let v: nat = if '0' <= c && c <= '9' {
        (c as nat - '0' as nat) as nat
    } else if 'a' <= c && c <= 'z' {
        (c as nat - 'a' as nat + 10) as nat
    } else if 'A' <= c && c <= 'Z' {
        (c as nat - 'A' as nat + 10) as nat
    } else {
        radix
    };
    if v < radix {
        Some(v)
    } else {
        None
    }
}

/// The value of a string of digits (the empty string is zero).
pub open spec fn digits_value(s: Seq<char>, radix: nat) -> Option<nat>
    decreases s.len(),
{
    if s.len() == 0 {
        Some(0)
    } else {
        match (digits_value(s.drop_last(), radix), digit_value(s.last(), radix)) {
            (Some(v), Some(d)) => Some(v * radix + d),
            _ => None,
        }
    }
}

/// `u32::from_str_radix`: an optional `+`, then at least one digit, with a
/// value that fits in 32 bits.
pub open spec fn parse_u32_radix(s: Seq<char>, radix: nat) -> Option<nat> {
    if s.len() == 0 || (s[0] == '+' && s.len() == 1) {
        None
    } else {
        let digits = if s[0] == '+' {
            s.drop_first()
        } else {
            s
        };
        match digits_value(digits, radix) {
            Some(v) => if v <= u32::MAX {
                Some(v)
            } else {
                None
            },
            None => None,
        }
    }
}

/// Whether `v` is a Unicode scalar value (what `char::from_u32` accepts).
pub open spec fn scalar_value(v: nat) -> bool {
    v <= 0x10FFFF && !(0xD800 <= v && v <= 0xDFFF)
}

/// Whether the text between `&` and `;` is an entity the renderers decode:
/// the named ones, or a decimal / hexadecimal character reference.
pub open spec fn entity_decodes(c: Seq<char>) -> bool {
    if c == "nbsp"@ || c == "amp"@ || c == "lt"@ || c == "gt"@ || c == "quot"@ || c == "apos"@
        || c == "#39"@ {
        true
    } else if c.len() >= 2 && c[0] == '#' && (c[1] == 'x' || c[1] == 'X') {
        match parse_u32_radix(c.skip(2), 16) {
            Some(v) => scalar_value(v),
            None => false,
        }
    } else if c.len() >= 1 && c[0] == '#' {
        match parse_u32_radix(c.skip(1), 10) {
            Some(v) => scalar_value(v),
            None => false,
        }
    } else {
        false
    }
}

/// Width of tag-free text: a decodable `&...;` entity counts one column;
/// every other character, including an undecodable `&`, counts one.
pub open spec fn entity_width(s: Seq<char>) -> nat
    decreases s.len(),
{
    if s.len() == 0 {
        0
    } else if s[0] != '&' {
        1 + entity_width(s.drop_first())
    } else {
        proof {
            lemma_find_char(s, ';');
        }
        match find_char(s, ';') {
            None => s.len(),
            Some(j) => if entity_decodes(s.subrange(1, j)) {
                1 + entity_width(s.skip(j + 1))
            } else {
                1 + entity_width(s.drop_first())
            },
        }
    }
}

/// The on-screen width of renderer HTML.
pub open spec fn visible_width_of(s: Seq<char>) -> nat {
    entity_width(strip_tags(s))
}

/// Removes closed tags (see [`strip_tags`]).
pub fn strip_tags_chars(s: &[char]) -> (r: Vec<char>)
    ensures
        r@ == strip_tags(s@),
{
    let mut out: Vec<char> = Vec::new();
    let mut i: usize = 0;
    assert(s@.skip(0) =~= s@);
    while i < s.len()
        invariant
            i <= s@.len(),
            out@ + strip_tags(s@.skip(i as int)) == strip_tags(s@),
        decreases s@.len() - i,
    {
        let ghost rest = s@.skip(i as int);
        if s[i] != '<' {
            out.push(s[i]);
            assert(rest.drop_first() =~= s@.skip(i + 1));
            assert(out@ + strip_tags(s@.skip(i + 1)) =~= strip_tags(s@));
            i = i + 1;
        } else {
            assert(rest.drop_first() =~= s@.skip(i + 1));
            match find_char_from(s, i + 1, '>') {
                None => {
                    let ghost base = out@;
                    assert(strip_tags(rest) == rest);
                    let mut k = i;
                    while k < s.len()
                        invariant
                            i <= k <= s@.len(),
                            out@ == base + s@.subrange(i as int, k as int),
                        decreases s@.len() - k,
                    {
                        out.push(s[k]);
                        k = k + 1;
                        assert(out@ =~= base + s@.subrange(i as int, k as int));
                    }
                    assert(rest =~= s@.subrange(i as int, s@.len() as int));
                    return out;
                },
                Some(j) => {
                    proof {
                        lemma_find_char(rest.drop_first(), '>');
                    }
                    if j == 0 {
                        out.push('<');
                        out.push('>');
                    }
                    assert(rest.skip(j + 2) =~= s@.skip(i + j + 2));
                    assert(rest.skip(2) =~= s@.skip(i + 2));
                    assert(out@ + strip_tags(s@.skip(i + j + 2)) =~= strip_tags(s@));
                    i = i + j + 2;
                },
            }
        }
    }
    assert(out@ =~= strip_tags(s@));
    out
}


/// A prefix of a digit string has a value no larger than the whole.
pub proof fn lemma_digits_prefix(s: Seq<char>, radix: nat, k: int)
    requires
        radix >= 1,
        0 <= k <= s.len(),
        digits_value(s, radix) is Some,
    ensures
        digits_value(s.take(k), radix) is Some,
        digits_value(s.take(k), radix)->0 <= digits_value(s, radix)->0,
    decreases s.len(),
{
    if k == s.len() {
        assert(s.take(k) =~= s);
    } else {
        let v = digits_value(s.drop_last(), radix)->0;
        lemma_digits_prefix(s.drop_last(), radix, k);
        assert(s.drop_last().take(k) =~= s.take(k));
        let d = digit_value(s.last(), radix)->0;
        assert(v * radix + d >= v) by (nonlinear_arith)
            requires
                radix >= 1,
        ;
    }
}

fn digit_value_exec(c: char, radix: u32) -> (r: Option<u32>)
    requires
        radix == 10 || radix == 16,
    ensures
        match r {
            Some(v) => digit_value(c, radix as nat) == Some(v as nat),
            None => digit_value(c, radix as nat) is None,
        },
{
    let v: u32 = if '0' <= c && c <= '9' {
        (c as u32) - ('0' as u32)
    } else if 'a' <= c && c <= 'z' {
        (c as u32) - ('a' as u32) + 10
    } else if 'A' <= c && c <= 'Z' {
        (c as u32) - ('A' as u32) + 10
    } else {
        radix
    };
    if v < radix {
        Some(v)
    } else {
        None
    }
}

/// `u32::from_str_radix` on a character slice (see [`parse_u32_radix`]).
pub fn parse_u32_radix_chars(s: &[char], radix: u32) -> (r: Option<u32>)
    requires
        radix == 10 || radix == 16,
    ensures
        match r {
            Some(v) => parse_u32_radix(s@, radix as nat) == Some(v as nat),
            None => parse_u32_radix(s@, radix as nat) is None,
        },
{
    if s.len() == 0 || (s[0] == '+' && s.len() == 1) {
        return None;
    }
    let start: usize = if s[0] == '+' { 1 } else { 0 };
    let ghost digits = if s@[0] == '+' { s@.drop_first() } else { s@ };
    assert(digits =~= s@.skip(start as int));
    let mut acc: u64 = 0;
    let mut k: usize = start;
    assert(digits.take(0) =~= Seq::<char>::empty());
    while k < s.len()
        invariant
            start <= k <= s@.len(),
            digits == s@.skip(start as int),
            s@.len() > 0,
            !(s@[0] == '+' && s@.len() == 1),
            digits == (if s@[0] == '+' { s@.drop_first() } else { s@ }),
            radix == 10 || radix == 16,
            acc <= u32::MAX,
            digits_value(digits.take(k - start), radix as nat) == Some(acc as nat),
        decreases s@.len() - k,
    {
        let ghost pre = digits.take(k - start);
        let ghost next = digits.take(k + 1 - start);
        assert(next.drop_last() =~= pre);
        assert(next.last() == s@[k as int]);
        match digit_value_exec(s[k], radix) {
            None => {
                proof {
                    assert(digits_value(next, radix as nat) is None);
                    if digits_value(digits, radix as nat) is Some {
                        lemma_digits_prefix(digits, radix as nat, k + 1 - start);
                        assert(false);
                    }
                }
                return None;
            },
            Some(d) => {
                let nv: u64 = acc * (radix as u64) + (d as u64);
                if nv > 4294967295u64 {
                    proof {
                        assert(digits_value(next, radix as nat) == Some(nv as nat));
                        if digits_value(digits, radix as nat) is Some {
                            lemma_digits_prefix(digits, radix as nat, k + 1 - start);
                            assert(digits_value(digits, radix as nat)->0 > u32::MAX);
                        }
                    }
                    return None;
                }
                acc = nv;
            },
        }
        k = k + 1;
    }
    assert(digits.take(k - start) =~= digits);
    Some(acc as u32)
}

fn is_scalar(v: u32) -> (r: bool)
    ensures
        r == scalar_value(v as nat),
{
    v <= 0x10FFFF && !(0xD800 <= v && v <= 0xDFFF)
}

fn is_named_entity(c: &[char]) -> (r: bool)
    ensures
        r == (c@ == "nbsp"@ || c@ == "amp"@ || c@ == "lt"@ || c@ == "gt"@ || c@ == "quot"@ || c@
            == "apos"@ || c@ == "#39"@),
{
    let nbsp = to_chars("nbsp");
    let amp = to_chars("amp");
    let lt = to_chars("lt");
    let gt = to_chars("gt");
    let quot = to_chars("quot");
    let apos = to_chars("apos");
    let num39 = to_chars("#39");
    chars_eq(c, nbsp.as_slice()) || chars_eq(c, amp.as_slice()) || chars_eq(c, lt.as_slice())
        || chars_eq(c, gt.as_slice()) || chars_eq(c, quot.as_slice()) || chars_eq(
        c,
        apos.as_slice(),
    ) || chars_eq(c, num39.as_slice())
}

/// Whether the entity body decodes (see [`entity_decodes`]).
pub fn entity_decodes_chars(c: &[char]) -> (r: bool)
    ensures
        r == entity_decodes(c@),
{
    if is_named_entity(c) {
        return true;
    }
    if c.len() >= 2 && c[0] == '#' && (c[1] == 'x' || c[1] == 'X') {
        let rest = &c[2..c.len()];
        assert(rest@ =~= c@.skip(2));
        match parse_u32_radix_chars(rest, 16) {
            Some(v) => is_scalar(v),
            None => false,
        }
    } else if c.len() >= 1 && c[0] == '#' {
        let rest = &c[1..c.len()];
        assert(rest@ =~= c@.skip(1));
        match parse_u32_radix_chars(rest, 10) {
            Some(v) => is_scalar(v),
            None => false,
        }
    } else {
        false
    }
}

/// Width of tag-free text (see [`entity_width`]).
pub fn entity_width_chars(s: &[char]) -> (r: usize)
    ensures
        r == entity_width(s@),
{
    let mut width: usize = 0;
    let mut i: usize = 0;
    assert(s@.skip(0) =~= s@);
    while i < s.len()
        invariant
            i <= s@.len(),
            width + entity_width(s@.skip(i as int)) == entity_width(s@),
            width <= i,
        decreases s@.len() - i,
    {
        let ghost rest = s@.skip(i as int);
        assert(rest.drop_first() =~= s@.skip(i + 1));
        if s[i] != '&' {
            width = width + 1;
            i = i + 1;
        } else {
            proof {
                lemma_find_char(rest, ';');
            }
            match find_char_from(s, i, ';') {
                None => {
                    return width + (s.len() - i);
                },
                Some(j) => {
                    let body = &s[i + 1..i + j];
                    assert(body@ =~= rest.subrange(1, j as int));
                    if entity_decodes_chars(body) {
                        assert(rest.skip(j + 1) =~= s@.skip(i + j + 1));
                        width = width + 1;
                        i = i + j + 1;
                    } else {
                        width = width + 1;
                        i = i + 1;
                    }
                },
            }
        }
    }
    assert(s@.skip(i as int) =~= Seq::<char>::empty());
    width
}

/// Returns the on-screen character width after removing tags and decoding
/// entities emitted by the renderers.
pub fn visible_width(text: &str) -> (r: usize)
    ensures
        r == visible_width_of(text@),
{
    let cs = to_chars(text);
    let stripped = strip_tags_chars(cs.as_slice());
    entity_width_chars(stripped.as_slice())
}

} // verus!
