//! Text helpers of the notification details panel: reading a label's hex colour and
//! shortening long texts. Lengths and cut points count UTF-8 bytes, as Rust strings do.

use vstd::prelude::*;

verus! {

/// Number of bytes the UTF-8 encoding of `c` takes.
pub open spec fn utf8_width(c: char) -> nat {
    let n = c as u32;
    if n < 0x80 {
        1
    } else if n < 0x800 {
        2
    } else if n < 0x10000 {
        3
    } else {
        4
    }
}

/// Number of bytes the UTF-8 encoding of `s` takes.
pub open spec fn utf8_len(s: Seq<char>) -> nat
    decreases s.len(),
{
    if s.len() == 0 {
        0
    } else {
        utf8_len(s.drop_last()) + utf8_width(s.last())
    }
}

/// Byte offset `k` of the UTF-8 encoding of `s` falls between two characters.
pub open spec fn on_char_boundary(s: Seq<char>, k: nat) -> bool {
    exists|i: int| 0 <= i <= s.len() && utf8_len(s.take(i)) == k
}

fn width_of(c: char) -> (w: usize)
    ensures
        w == utf8_width(c),
{
    let n = c as u32;
    if n < 0x80 {
        1
    } else if n < 0x800 {
        2
    } else if n < 0x10000 {
        3
    } else {
        4
    }
}

/// Longer prefixes take more bytes.
proof fn lemma_utf8_len_monotone(s: Seq<char>, i: int, j: int)
    requires
        0 <= i <= j <= s.len(),
    ensures
        utf8_len(s.take(i)) <= utf8_len(s.take(j)),
        i < j ==> utf8_len(s.take(i)) < utf8_len(s.take(j)),
    decreases j - i,
{
    if i < j {
        lemma_utf8_len_monotone(s, i, j - 1);
        assert(s.take(j).drop_last() =~= s.take(j - 1));
    }
}

/// The text, or its first `max_len` bytes followed by "..." when it is longer.
pub open spec fn truncated(text: Seq<char>, max_len: nat) -> Seq<char> {
    if utf8_len(text) <= max_len {
        text
    } else {
        text.take(choose|i: int| 0 <= i <= text.len() && utf8_len(text.take(i)) == max_len)
            + "..."@
    }
}

/// Shortens `text` to `max_len` bytes followed by "...", when it is longer than that.
/// The cut must fall between two characters.
pub fn truncate_text(text: &str, max_len: usize) -> (r: String)
    requires
        utf8_len(text@) <= max_len || on_char_boundary(text@, max_len as nat),
    ensures
        r@ == truncated(text@, max_len as nat),
{
    let n = text.unicode_len();
    let mut i: usize = 0;
    let mut bytes: usize = 0;
    while i < n && width_of(text.get_char(i)) <= max_len - bytes
        invariant
            n == text@.len(),
            i <= n,
            bytes == utf8_len(text@.take(i as int)),
            bytes <= max_len,
        decreases n - i,
    {
        let w = width_of(text.get_char(i));
        proof {
            assert(text@.take(i + 1).drop_last() =~= text@.take(i as int));
        }
        bytes = bytes + w;
        i = i + 1;
    }
    if i == n {
        proof {
            assert(text@.take(n as int) =~= text@);
        }
        return String::from_str(text);
    }
    proof {
        assert(text@.take(i + 1).drop_last() =~= text@.take(i as int));
        assert(utf8_len(text@.take(i + 1)) > max_len);
        lemma_utf8_len_monotone(text@, i + 1, n as int);
        assert(text@.take(n as int) =~= text@);
        let k = choose|k: int| 0 <= k <= text@.len() && utf8_len(text@.take(k)) == max_len;
        if k < i {
            lemma_utf8_len_monotone(text@, k, i as int);
        } else if k > i {
            lemma_utf8_len_monotone(text@, i + 1, k);
        }
        assert(k == i);
    }
    let mut r = String::from_str(text.substring_char(0, i));
    r.append("...");
    r
}

/// `c` is a hexadecimal digit.
pub open spec fn is_hex_digit(c: char) -> bool {
    ('0' <= c <= '9') || ('a' <= c <= 'f') || ('A' <= c <= 'F')
}

/// Value of the hexadecimal digit `c`.
pub open spec fn hex_value(c: char) -> int {
    if '0' <= c <= '9' {
        (c as int) - ('0' as int)
    } else if 'a' <= c <= 'f' {
        (c as int) - ('a' as int) + 10
    } else {
        (c as int) - ('A' as int) + 10
    }
}

/// What `u8::from_str_radix(p, 16)` gives for a piece of text: an optional `+` sign followed
/// by one or two hexadecimal digits (a longer piece is never asked for here).
pub open spec fn radix16_byte(p: Seq<char>) -> Option<u8> {
    if p.len() == 1 && is_hex_digit(p[0]) {
        Some(hex_value(p[0]) as u8)
    } else if p.len() == 2 && p[0] == '+' && is_hex_digit(p[1]) {
        Some(hex_value(p[1]) as u8)
    } else if p.len() == 2 && is_hex_digit(p[0]) && is_hex_digit(p[1]) {
        Some((16 * hex_value(p[0]) + hex_value(p[1])) as u8)
    } else {
        None
    }
}

/// `s` with its leading `#` characters removed.
pub open spec fn without_leading_hashes(s: Seq<char>) -> Seq<char>
    decreases s.len(),
{
    if s.len() > 0 && s[0] == '#' {
        without_leading_hashes(s.drop_first())
    } else {
        s
    }
}

/// The colour a `#rrggbb` text names: after dropping leading `#`s, six bytes read as three
/// hexadecimal bytes. Six bytes that are not six characters hold a character outside ASCII,
/// which is no digit, so they name no colour.
pub open spec fn hex_color(hex: Seq<char>) -> Option<(u8, u8, u8)> {
    let t = without_leading_hashes(hex);
    if utf8_len(t) == 6 && t.len() == 6 {
        match (
            radix16_byte(t.subrange(0, 2)),
            radix16_byte(t.subrange(2, 4)),
            radix16_byte(t.subrange(4, 6)),
        ) {
            (Some(r), Some(g), Some(b)) => Some((r, g, b)),
            _ => None,
        }
    } else {
        None
    }
}

/// Reading six bytes pair by pair does not cut a character: not at offset 2, and not at
/// offset 4 once the first pair has been read as a byte (a pair that fails ends the reading).
pub open spec fn hex_slices_on_boundaries(hex: Seq<char>) -> bool {
    let t = without_leading_hashes(hex);
    utf8_len(t) == 6 ==> {
        &&& on_char_boundary(t, 2)
        &&& radix16_byte(t.subrange(0, 2)) is Some ==> on_char_boundary(t, 4)
    }
}

fn hex_digit_value(c: char) -> (v: Option<u32>)
    ensures
        v is Some <==> is_hex_digit(c),
        v matches Some(x) ==> x == hex_value(c) && x < 16,
{
    if '0' <= c && c <= '9' {
        Some((c as u32) - ('0' as u32))
    } else if 'a' <= c && c <= 'f' {
        Some((c as u32) - ('a' as u32) + 10)
    } else if 'A' <= c && c <= 'F' {
        Some((c as u32) - ('A' as u32) + 10)
    } else {
        None
    }
}

/// Reads two characters as `u8::from_str_radix` does with radix 16.
fn parse_byte_pair(a: char, b: char) -> (v: Option<u8>)
    ensures
        v == radix16_byte(seq![a, b]),
{
    let ghost sa = seq![a, b];
    assert(sa[0] == a && sa[1] == b && sa.len() == 2);
    match hex_digit_value(b) {
        None => None,
        Some(low) => {
            if a == '+' {
                Some(low as u8)
            } else {
                match hex_digit_value(a) {
                    Some(high) => Some((16 * high + low) as u8),
                    None => None,
                }
            }
        },
    }
}

/// Reads a `#rrggbb` colour.
pub fn parse_hex_color(hex: &str) -> (c: Option<(u8, u8, u8)>)
    requires
        hex_slices_on_boundaries(hex@),
    ensures
        c == hex_color(hex@),
{
    let n = hex.unicode_len();
    let mut start: usize = 0;
    assert(hex@.subrange(0, n as int) =~= hex@);
    while start < n && hex.get_char(start) == '#'
        invariant
            n == hex@.len(),
            start <= n,
            without_leading_hashes(hex@.subrange(start as int, n as int)) == without_leading_hashes(hex@),
        decreases n - start,
    {
        proof {
            let s = hex@.subrange(start as int, n as int);
            assert(s.drop_first() =~= hex@.subrange(start + 1, n as int));
        }
        start = start + 1;
    }
    let t = hex.substring_char(start, n);
    proof {
        let s = hex@.subrange(start as int, n as int);
        assert(s == t@);
        if s.len() > 0 {
            assert(s[0] == hex@[start as int]);
        }
        assert(without_leading_hashes(s) == s);
    }
    let m = t.unicode_len();
    if m != 6 {
        return None;
    }
    let c0 = t.get_char(0);
    let c1 = t.get_char(1);
    let c2 = t.get_char(2);
    let c3 = t.get_char(3);
    let c4 = t.get_char(4);
    let c5 = t.get_char(5);
    let all_ascii = (c0 as u32) < 0x80 && (c1 as u32) < 0x80 && (c2 as u32) < 0x80 && (c3 as u32)
        < 0x80 && (c4 as u32) < 0x80 && (c5 as u32) < 0x80;
    proof {
        let s = t@;
        reveal_with_fuel(utf8_len, 7);
        assert(s.drop_last().drop_last().drop_last().drop_last().drop_last().drop_last() =~= Seq::<char>::empty());
        assert(s.subrange(0, 2) =~= seq![c0, c1]);
        assert(s.subrange(2, 4) =~= seq![c2, c3]);
        assert(s.subrange(4, 6) =~= seq![c4, c5]);
    }
    if !all_ascii {
        return None;
    }
    let r = parse_byte_pair(c0, c1);
    let g = parse_byte_pair(c2, c3);
    let b = parse_byte_pair(c4, c5);
    match (r, g, b) {
        (Some(r), Some(g), Some(b)) => Some((r, g, b)),
        _ => None,
    }
}

} // verus!
