//! Properties that relate the parser, the renderings and the checksum.

use vstd::prelude::*;

use crate::checksum::{check_digit, checkdigit_result};
use crate::render::{digit_char, plain_text, prefix_chars};
use crate::scan::{
    digit_value, digits_at, first_group_start, group_start, has_prefix_token, is_ascii_digit,
    is_uid_text, prefix_token, text_digits,
};
use crate::uid::{is_valid_uid, parse_result, prefix_of_token, SwissUidView, UidErrorView};

verus! {

proof fn lemma_digit_char(d: u8)
    requires
        d <= 9,
    ensures
        is_ascii_digit(digit_char(d)),
        digit_value(digit_char(d)) == d,
{
    assert(d == 0 || d == 1 || d == 2 || d == 3 || d == 4 || d == 5 || d == 6 || d == 7 || d
        == 8 || d == 9);
}

/// Parsing the canonical text of a valid identifier gives that identifier back.
pub proof fn lemma_round_trip(v: SwissUidView)
    requires
        is_valid_uid(v),
    ensures
        parse_result(plain_text(v)) == Ok::<SwissUidView, UidErrorView>(v),
{
    let s = plain_text(v);
    let d = v.digits;
    assert(d[0] <= 9 && d[1] <= 9 && d[2] <= 9 && d[3] <= 9);
    assert(d[4] <= 9 && d[5] <= 9 && d[6] <= 9 && d[7] <= 9);
    lemma_digit_char(d[0]);
    lemma_digit_char(d[1]);
    lemma_digit_char(d[2]);
    lemma_digit_char(d[3]);
    lemma_digit_char(d[4]);
    lemma_digit_char(d[5]);
    lemma_digit_char(d[6]);
    lemma_digit_char(d[7]);
    lemma_digit_char(v.check);
    assert(s.len() == 15);
    assert(s[3] == '-' && s[7] == '.' && s[11] == '.');
    assert(has_prefix_token(s));
    assert(first_group_start(s) == 4);
    assert(group_start(s, 1) == 8);
    assert(group_start(s, 2) == 12);
    assert(is_uid_text(s));
    assert(prefix_token(s) =~= prefix_chars(v.prefix));
    assert(prefix_of_token(prefix_token(s)) == Some(v.prefix));
    assert(text_digits(s).take(8) =~= d);
    assert(text_digits(s)[8] == v.check);
}

/// A value obtained by parsing is valid, and parsing its canonical text
/// gives the same value again.
pub proof fn lemma_parse_render_round_trip(s: Seq<char>)
    requires
        parse_result(s) is Ok,
    ensures
        is_valid_uid(parse_result(s)->Ok_0),
        parse_result(plain_text(parse_result(s)->Ok_0)) == parse_result(s),
{
    let v = parse_result(s)->Ok_0;
    assert forall|k: int| 0 <= k < 9 implies #[trigger] text_digits(s)[k] <= 9 by {
        let g = group_start(s, k / 3);
        assert(digits_at(s, g));
        assert(is_ascii_digit(s[g + k % 3]));
    }
    assert forall|i: int| 0 <= i < 8 implies #[trigger] v.digits[i] <= 9 by {
        assert(v.digits[i] == text_digits(s)[i]);
    }
    lemma_round_trip(v);
}

/// The checksum is a function of the digits alone: equal digits give equal
/// results of `calculate_checkdigit`.
pub proof fn lemma_checksum_deterministic(d: Seq<u8>, e: Seq<u8>)
    requires
        d == e,
    ensures
        checkdigit_result(d) == checkdigit_result(e),
        check_digit(d) == check_digit(e),
{
}

/// Some payloads have no check digit; `00000200` is one.
pub proof fn lemma_degenerate_payload_exists()
    ensures
        check_digit(seq![0u8, 0, 0, 0, 0, 2, 0, 0]) is None,
{
}

/// A text whose payload has no check digit is refused with
/// `InvalidCheckDigit`, whatever its ninth digit, once its grouping and
/// prefix are accepted.
pub proof fn lemma_degenerate_rejected(s: Seq<char>)
    requires
        is_uid_text(s),
        prefix_of_token(prefix_token(s)) is Some,
        check_digit(text_digits(s).take(8)) is None,
    ensures
        parse_result(s) is Err,
        parse_result(s)->Err_0 is InvalidCheckDigit,
{
}

/// Of the texts that start with three letters, those whose token is neither
/// `CHE` nor `ADM` (in any case) are refused with `InvalidFormat`; those whose
/// token is one of them are not, where the digits are well grouped, and an
/// identifier parsed from them carries the prefix that the token names.
pub proof fn lemma_prefix_closure(s: Seq<char>)
    requires
        has_prefix_token(s),
    ensures
        prefix_of_token(s.take(3)) is None ==> parse_result(s) is Err && parse_result(
            s,
        )->Err_0 is InvalidFormat,
        prefix_of_token(s.take(3)) is Some && is_uid_text(s) ==> !(parse_result(s) is Err
            && parse_result(s)->Err_0 is InvalidFormat),
        parse_result(s) is Ok ==> prefix_of_token(s.take(3)) == Some(
            parse_result(s)->Ok_0.prefix,
        ),
{
    assert(prefix_token(s) == s.take(3));
}

} // verus!
