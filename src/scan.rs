//! The textual grammar of an identifier: an optional three-letter prefix
//! token, an optional `' '` or `'-'`, then three groups of three decimal
//! digits, the first two each followed by an optional `'.'` or `' '`.
//! Whatever follows the ninth digit is ignored.

use vstd::prelude::*;

verus! {

pub open spec fn is_ascii_letter(c: char) -> bool {
    (65 <= c as u32 <= 90) || (97 <= c as u32 <= 122)
}

pub open spec fn is_ascii_digit(c: char) -> bool {
    48 <= c as u32 <= 57
}

/// The value of a decimal digit character.
pub open spec fn digit_value(c: char) -> u8 {
    (c as u32 - 48) as u8
}

/// The text starts with three letters, which form the prefix token.
pub open spec fn has_prefix_token(s: Seq<char>) -> bool {
    s.len() >= 3 && is_ascii_letter(s[0]) && is_ascii_letter(s[1]) && is_ascii_letter(s[2])
}

/// The prefix token: the three leading letters, or nothing where the text
/// does not start with three letters.
pub open spec fn prefix_token(s: Seq<char>) -> Seq<char> {
    if has_prefix_token(s) {
        s.take(3)
    } else {
        Seq::empty()
    }
}

/// Where the first group of digits starts.
pub open spec fn first_group_start(s: Seq<char>) -> int {
    if has_prefix_token(s) {
        if s.len() > 3 && (s[3] == ' ' || s[3] == '-') {
            4
        } else {
            3
        }
    } else {
        0
    }
}

/// Where the group after the one starting at `i` starts.
pub open spec fn next_group_start(s: Seq<char>, i: int) -> int {
    if i + 3 < s.len() && (s[i + 3] == '.' || s[i + 3] == ' ') {
        i + 4
    } else {
        i + 3
    }
}

/// The start of each of the three groups of digits.
pub open spec fn group_start(s: Seq<char>, g: int) -> int {
    if g == 0 {
        first_group_start(s)
    } else if g == 1 {
        next_group_start(s, first_group_start(s))
    } else {
        next_group_start(s, next_group_start(s, first_group_start(s)))
    }
}

/// Three decimal digits stand at `i`.
pub open spec fn digits_at(s: Seq<char>, i: int) -> bool {
    0 <= i && i + 3 <= s.len() && forall|k: int| i <= k < i + 3 ==> is_ascii_digit(#[trigger] s[k])
}

/// The text holds the prefix token, if any, and nine digits in the expected grouping.
pub open spec fn is_uid_text(s: Seq<char>) -> bool {
    digits_at(s, group_start(s, 0)) && digits_at(s, group_start(s, 1)) && digits_at(
        s,
        group_start(s, 2),
    )
}

/// The nine digits of a text for which `is_uid_text` holds.
pub open spec fn text_digits(s: Seq<char>) -> Seq<u8> {
    Seq::new(9, |k: int| digit_value(s[group_start(s, k / 3) + k % 3]))
}

fn is_letter(c: char) -> (r: bool)
    ensures
        r == is_ascii_letter(c),
{
    ('A' <= c && c <= 'Z') || ('a' <= c && c <= 'z')
}

fn is_digit(c: char) -> (r: bool)
    ensures
        r == is_ascii_digit(c),
{
    '0' <= c && c <= '9'
}

/// Whether the text starts with a three-letter prefix token.
pub fn starts_with_token(s: &str) -> (r: bool)
    ensures
        r == has_prefix_token(s@),
{
    let len = s.unicode_len();
    len >= 3 && is_letter(s.get_char(0)) && is_letter(s.get_char(1)) && is_letter(s.get_char(2))
}

fn find_first_group(s: &str, len: usize) -> (r: usize)
    requires
        len == s@.len(),
    ensures
        r == first_group_start(s@),
{
    if starts_with_token(s) {
        if len > 3 {
            let c = s.get_char(3);
            if c == ' ' || c == '-' {
                return 4;
            }
        }
        3
    } else {
        0
    }
}

fn find_next_group(s: &str, len: usize, i: usize) -> (r: usize)
    requires
        len == s@.len(),
        i + 3 <= len,
    ensures
        r == next_group_start(s@, i as int),
{
    if i + 3 < len {
        let c = s.get_char(i + 3);
        if c == '.' || c == ' ' {
            return i + 4;
        }
    }
    i + 3
}

/// Appends the three digits at `i`, if three digits stand there.
fn read_group(s: &str, len: usize, i: usize, out: &mut Vec<u8>) -> (ok: bool)
    requires
        len == s@.len(),
    ensures
        ok == digits_at(s@, i as int),
        ok ==> final(out)@ == old(out)@ + seq![
            digit_value(s@[i as int]),
            digit_value(s@[i + 1]),
            digit_value(s@[i + 2]),
        ],
{
    if i > len || len - i < 3 {
        return false;
    }
    let ghost start = out@;
    let mut k: usize = 0;
    while k < 3
        invariant
            k <= 3,
            i + 3 <= len,
            len == s@.len(),
            out@.len() == start.len() + k,
            forall|j: int| 0 <= j < start.len() ==> out@[j] == start[j],
            forall|j: int| 0 <= j < k ==> #[trigger] out@[start.len() + j] == digit_value(s@[i + j]),
            forall|j: int| i <= j < i + k ==> is_ascii_digit(#[trigger] s@[j]),
        decreases 3 - k,
    {
        let c = s.get_char(i + k);
        if !is_digit(c) {
            return false;
        }
        out.push((c as u32 - '0' as u32) as u8);
        k = k + 1;
    }
    assert(out@[start.len() + 0int] == digit_value(s@[i + 0int]));
    assert(out@[start.len() + 1int] == digit_value(s@[i + 1int]));
    assert(out@[start.len() + 2int] == digit_value(s@[i + 2int]));
    assert(out@ =~= start + seq![
        digit_value(s@[i as int]),
        digit_value(s@[i + 1]),
        digit_value(s@[i + 2]),
    ]);
    true
}

/// The nine digits of the text, where it has the expected grouping.
pub fn scan_digits(s: &str) -> (r: Option<Vec<u8>>)
    ensures
        match r {
            Some(d) => is_uid_text(s@) && d@ == text_digits(s@),
            None => !is_uid_text(s@),
        },
{
    let len = s.unicode_len();
    let mut out: Vec<u8> = Vec::new();
    let g0 = find_first_group(s, len);
    if !read_group(s, len, g0, &mut out) {
        return None;
    }
    let g1 = find_next_group(s, len, g0);
    if !read_group(s, len, g1, &mut out) {
        return None;
    }
    let g2 = find_next_group(s, len, g1);
    if !read_group(s, len, g2, &mut out) {
        return None;
    }
    assert(out@ =~= text_digits(s@));
    Some(out)
}

} // verus!
