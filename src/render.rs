//! The canonical texts of an identifier and of its parts.

use vstd::prelude::*;

use crate::uid::{SwissUidView, UidPrefix};

verus! {

/// The canonical text of a prefix.
pub open spec fn prefix_chars(p: UidPrefix) -> Seq<char> {
    match p {
        UidPrefix::CHE => seq!['C', 'H', 'E'],
        UidPrefix::ADM => seq!['A', 'D', 'M'],
    }
}

/// The character of a decimal digit.
pub open spec fn digit_char(d: u8) -> char {
    seq!['0', '1', '2', '3', '4', '5', '6', '7', '8', '9'][d as int]
}

/// Prefix, hyphen, and the eight payload digits grouped 3.3.2.
pub open spec fn grouped_text(p: UidPrefix, d: Seq<u8>) -> Seq<char> {
    prefix_chars(p) + seq![
        '-',
        digit_char(d[0]),
        digit_char(d[1]),
        digit_char(d[2]),
        '.',
        digit_char(d[3]),
        digit_char(d[4]),
        digit_char(d[5]),
        '.',
        digit_char(d[6]),
        digit_char(d[7]),
    ]
}

/// The canonical text, such as `CHE-109.322.551`.
pub open spec fn plain_text(v: SwissUidView) -> Seq<char> {
    grouped_text(v.prefix, v.digits).push(digit_char(v.check))
}

/// The canonical text with the check digit in brackets, such as `CHE-109.322.55[1]`.
pub open spec fn debug_text(p: UidPrefix, d: Seq<u8>, check: u8) -> Seq<char> {
    grouped_text(p, d) + seq!['[', digit_char(check), ']']
}

/// `t` between single quotes.
pub open spec fn quoted(t: Seq<char>) -> Seq<char> {
    seq!['\''] + t + seq!['\'']
}

pub(crate) fn push_digit(out: &mut String, d: u8)
    requires
        d <= 9,
    ensures
        final(out)@ == old(out)@.push(digit_char(d)),
{
    let t = match d {
        0 => {
            proof {
                reveal_strlit("0");
            }
            "0"
        },
        1 => {
            proof {
                reveal_strlit("1");
            }
            "1"
        },
        2 => {
            proof {
                reveal_strlit("2");
            }
            "2"
        },
        3 => {
            proof {
                reveal_strlit("3");
            }
            "3"
        },
        4 => {
            proof {
                reveal_strlit("4");
            }
            "4"
        },
        5 => {
            proof {
                reveal_strlit("5");
            }
            "5"
        },
        6 => {
            proof {
                reveal_strlit("6");
            }
            "6"
        },
        7 => {
            proof {
                reveal_strlit("7");
            }
            "7"
        },
        8 => {
            proof {
                reveal_strlit("8");
            }
            "8"
        },
        _ => {
            proof {
                reveal_strlit("9");
            }
            "9"
        },
    };
    assert(t@ =~= seq![digit_char(d)]);
    out.append(t);
    assert(out@ =~= old(out)@.push(digit_char(d)));
}

fn push_char(out: &mut String, t: &str, c: char)
    requires
        t@ =~= seq![c],
    ensures
        final(out)@ == old(out)@.push(c),
{
    out.append(t);
    assert(out@ =~= old(out)@.push(c));
}

/// The text of prefix and grouped payload.
pub(crate) fn grouped_string(pfx: UidPrefix, d: &[u8]) -> (r: String)
    requires
        d@.len() == 8,
        forall|i: int| 0 <= i < 8 ==> #[trigger] d@[i] <= 9,
    ensures
        r@ == grouped_text(pfx, d@),
{
    let mut out = String::new();
    match pfx {
        UidPrefix::CHE => {
            proof {
                reveal_strlit("CHE-");
            }
            out.append("CHE-");
        },
        UidPrefix::ADM => {
            proof {
                reveal_strlit("ADM-");
            }
            out.append("ADM-");
        },
    }
    proof {
        reveal_strlit(".");
    }
    push_digit(&mut out, d[0]);
    push_digit(&mut out, d[1]);
    push_digit(&mut out, d[2]);
    push_char(&mut out, ".", '.');
    push_digit(&mut out, d[3]);
    push_digit(&mut out, d[4]);
    push_digit(&mut out, d[5]);
    push_char(&mut out, ".", '.');
    push_digit(&mut out, d[6]);
    push_digit(&mut out, d[7]);
    assert(out@ =~= grouped_text(pfx, d@));
    out
}

/// The text of prefix and grouped payload, with the check digit in brackets.
pub(crate) fn debug_string(pfx: UidPrefix, d: &[u8], check: u8) -> (r: String)
    requires
        d@.len() == 8,
        forall|i: int| 0 <= i < 8 ==> #[trigger] d@[i] <= 9,
        check <= 9,
    ensures
        r@ == debug_text(pfx, d@, check),
{
    let mut out = grouped_string(pfx, d);
    proof {
        reveal_strlit("[");
        reveal_strlit("]");
    }
    push_char(&mut out, "[", '[');
    push_digit(&mut out, check);
    push_char(&mut out, "]", ']');
    assert(out@ =~= debug_text(pfx, d@, check));
    out
}

/// `t` between single quotes.
pub(crate) fn quote(t: &str) -> (r: String)
    ensures
        r@ == quoted(t@),
{
    proof {
        reveal_strlit("'");
    }
    let mut out = String::new();
    push_char(&mut out, "'", '\'');
    out.append(t);
    push_char(&mut out, "'", '\'');
    assert(out@ =~= quoted(t@));
    out
}

} // verus!
