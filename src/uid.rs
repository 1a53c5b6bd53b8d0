use vstd::prelude::*;
use vstd::slice::slice_subrange;

pub use crate::checksum::calculate_checkdigit;
use crate::checksum::{check_digit, weighted_sum};
use crate::laws::lemma_round_trip;
use crate::random::{gen_range_u8, thread_rng};
use crate::render::{
    debug_string, debug_text, digit_char, grouped_string, plain_text, push_digit, quote, quoted,
};
use crate::scan::{is_uid_text, prefix_token, scan_digits, starts_with_token, text_digits};
use crate::utils::nibble::{
    lemma_nibbles_value_unpack, lemma_unpack_nibbles_value, nibbles_value, pow16, unpack,
};
use crate::utils::{IntoNibbles, IntoNibblesNum};

verus! {

/// The two categories of identifier.
#[derive(Debug, Clone, Copy, PartialEq, Eq, Structural)]
pub enum UidPrefix {
    /// Commercial register.
    CHE,
    /// Administration.
    ADM,
}

/// Why a text is not a valid identifier.
#[derive(Debug, Clone, PartialEq, Eq)]
pub enum UidError {
    /// Malformed Swiss UID string format
    InvalidFormat(String),
    /// The first payload digit is zero
    LeadingZeroNotAllowed,
    /// The calculated check digit is in the invalid range, no UID can have this check digit
    InvalidCheckDigit(String),
    /// The calculated check digit of the first 8 digits does not match the given 9th digit
    MismatchedCheckDigit(String),
}

/// An error with its message as a sequence of characters.
pub enum UidErrorView {
    InvalidFormat(Seq<char>),
    LeadingZeroNotAllowed,
    InvalidCheckDigit(Seq<char>),
    MismatchedCheckDigit(Seq<char>),
}

impl View for UidError {
    type V = UidErrorView;

    open spec fn view(&self) -> UidErrorView {
        match self {
            UidError::InvalidFormat(m) => UidErrorView::InvalidFormat(m@),
            UidError::LeadingZeroNotAllowed => UidErrorView::LeadingZeroNotAllowed,
            UidError::InvalidCheckDigit(m) => UidErrorView::InvalidCheckDigit(m@),
            UidError::MismatchedCheckDigit(m) => UidErrorView::MismatchedCheckDigit(m@),
        }
    }
}

/// A letter of a prefix token, compared without regard to case.
pub open spec fn same_letter(c: char, upper: char) -> bool {
    c == upper || c as u32 == upper as u32 + 32
}

/// The prefix that a three-letter token names, case-folded.
pub open spec fn prefix_of_token(t: Seq<char>) -> Option<UidPrefix> {
    if t.len() == 3 && same_letter(t[0], 'C') && same_letter(t[1], 'H') && same_letter(t[2], 'E') {
        Some(UidPrefix::CHE)
    } else if t.len() == 3 && same_letter(t[0], 'A') && same_letter(t[1], 'D') && same_letter(
        t[2],
        'M',
    ) {
        Some(UidPrefix::ADM)
    } else {
        None
    }
}

/// The text of an error.
pub open spec fn error_text(e: UidErrorView) -> Seq<char> {
    match e {
        UidErrorView::InvalidFormat(m) => "Invalid format: "@ + m,
        UidErrorView::LeadingZeroNotAllowed => "Leading zero is not allowed"@,
        UidErrorView::InvalidCheckDigit(m) => "Invalid check digit: "@ + m,
        UidErrorView::MismatchedCheckDigit(m) => "Mismatched check digit: "@ + m,
    }
}

/// An identifier as prefix, eight payload digits and check digit.
pub struct SwissUidView {
    pub prefix: UidPrefix,
    pub digits: Seq<u8>,
    pub check: u8,
}

/// Eight decimal digits whose first is not zero and which have a check digit.
pub open spec fn is_valid_payload(d: Seq<u8>) -> bool {
    &&& d.len() == 8
    &&& forall|i: int| 0 <= i < 8 ==> #[trigger] d[i] <= 9
    &&& d[0] != 0
    &&& check_digit(d) is Some
}

/// A valid identifier: its check digit is the one its payload calls for.
pub open spec fn is_valid_uid(v: SwissUidView) -> bool {
    is_valid_payload(v.digits) && check_digit(v.digits) == Some(v.check)
}

/// What parsing a text gives: the text must have the expected grouping, its
/// prefix token must name a prefix, the payload must have a check digit,
/// equal to the ninth digit, and its first digit must not be zero, in this order.
pub open spec fn parse_result(s: Seq<char>) -> Result<SwissUidView, UidErrorView> {
    if !is_uid_text(s) {
        Err(UidErrorView::InvalidFormat(quoted(s)))
    } else {
        match prefix_of_token(prefix_token(s)) {
            None => Err(
                UidErrorView::InvalidFormat(
                    quoted(prefix_token(s)) + " prefix must be 'CHE' or 'ADM'"@,
                ),
            ),
            Some(p) => {
                let payload = text_digits(s).take(8);
                let declared = text_digits(s)[8];
                match check_digit(payload) {
                    None => Err(
                        UidErrorView::InvalidCheckDigit(
                            quoted(debug_text(p, payload, declared)) + " is prohibited from use"@,
                        ),
                    ),
                    Some(c) => if c != declared {
                        Err(
                            UidErrorView::MismatchedCheckDigit(
                                quoted(debug_text(p, payload, declared))
                                    + " should have the check digit ["@ + seq![digit_char(c)]
                                    + "]"@,
                            ),
                        )
                    } else if payload[0] == 0 {
                        Err(UidErrorView::LeadingZeroNotAllowed)
                    } else {
                        Ok(SwissUidView { prefix: p, digits: payload, check: declared })
                    },
                }
            },
        }
    }
}

/// The payload that synthesis settles on for drawn digits: the digits
/// themselves where they have a check digit, else the digits with the first
/// one moved by one (up from 1, down from anything higher).
pub open spec fn adjusted_payload(d: Seq<u8>) -> Seq<u8> {
    if check_digit(d) is Some {
        d
    } else if d[0] <= 1 {
        d.update(0, (d[0] + 1) as u8)
    } else {
        d.update(0, (d[0] - 1) as u8)
    }
}

/// A Swiss UID (Unternehmens-Identifikationsnummer): a prefix and nine
/// digits, the last of which is the check digit of the eight before it.
/// The eight payload digits are held as the nibbles of two words.
#[derive(Debug, Clone, Copy, PartialEq, Eq, Structural)]
pub struct SwissUid {
    a: u16,
    b: u16,
    p: u8,
    pfx: UidPrefix,
}

impl View for SwissUid {
    type V = SwissUidView;

    closed spec fn view(&self) -> SwissUidView {
        SwissUidView {
            prefix: self.pfx,
            digits: unpack(self.a as nat, 4) + unpack(self.b as nat, 4),
            check: self.p,
        }
    }
}

impl UidPrefix {
    /// The prefix that a token names, ignoring the case of its letters.
    pub fn from_token(t: &str) -> (r: Option<UidPrefix>)
        ensures
            r == prefix_of_token(t@),
    {
        if t.unicode_len() != 3 {
            return None;
        }
        let c0 = t.get_char(0);
        let c1 = t.get_char(1);
        let c2 = t.get_char(2);
        if letter_matches(c0, 'C') && letter_matches(c1, 'H') && letter_matches(c2, 'E') {
            Some(UidPrefix::CHE)
        } else if letter_matches(c0, 'A') && letter_matches(c1, 'D') && letter_matches(c2, 'M') {
            Some(UidPrefix::ADM)
        } else {
            None
        }
    }
}

fn letter_matches(c: char, upper: char) -> (r: bool)
    requires
        65 <= upper as u32 <= 90,
    ensures
        r == same_letter(c, upper),
{
    c == upper || c as u32 == upper as u32 + 32
}

impl UidError {
    /// The error as text, such as `Invalid format: 'ABC' prefix must be 'CHE' or 'ADM'`.
    pub fn to_string(&self) -> (r: String)
        ensures
            r@ == error_text(self@),
    {
        match self {
            UidError::InvalidFormat(m) => String::from_str("Invalid format: ").concat(m.as_str()),
            UidError::LeadingZeroNotAllowed => String::from_str("Leading zero is not allowed"),
            UidError::InvalidCheckDigit(m) => String::from_str("Invalid check digit: ").concat(
                m.as_str(),
            ),
            UidError::MismatchedCheckDigit(m) => String::from_str(
                "Mismatched check digit: ",
            ).concat(m.as_str()),
        }
    }
}

impl SwissUid {
    #[verifier::type_invariant]
    spec fn inv(self) -> bool {
        self.p < 10 && is_valid_uid(self@)
    }

    /// Builds the value from a valid payload and its check digit.
    fn from_parts(pfx: UidPrefix, payload: &[u8], check: u8) -> (r: Self)
        requires
            is_valid_payload(payload@),
            check_digit(payload@) == Some(check),
        ensures
            r@ == (SwissUidView { prefix: pfx, digits: payload@, check }),
    {
        let hi = slice_subrange(payload, 0, 4);
        let lo = slice_subrange(payload, 4, 8);
        let a: u16 = hi.into_nibbles_num();
        let b: u16 = lo.into_nibbles_num();
        proof {
            lemma_unpack_nibbles_value(hi@);
            lemma_unpack_nibbles_value(lo@);
            assert(hi@ + lo@ =~= payload@);
        }
        SwissUid { a, b, p: check, pfx }
    }

    /// Creates a SwissUID from a string such as `CHE-109.322.551`.
    ///
    /// The prefix `CHE` or `ADM` (in any case) may be followed by a space or a
    /// hyphen; the three groups of three digits may be separated by a dot or
    /// a space. Whatever follows the ninth digit, such as ` MWST`, is ignored.
    ///
    /// The checks run in this order: grouping, prefix, existence of a check
    /// digit, agreement with the ninth digit. A payload whose first digit is
    /// zero is refused last, with `LeadingZeroNotAllowed`, so that a payload
    /// without a check digit is always reported as such.
    pub fn new(uid: &str) -> (r: Result<Self, UidError>)
        ensures
            match r {
                Ok(u) => parse_result(uid@) == Ok::<SwissUidView, UidErrorView>(u@),
                Err(e) => parse_result(uid@) == Err::<SwissUidView, UidErrorView>(e@),
            },
            r is Ok ==> is_valid_uid(r->Ok_0@),
    {
        let digits = match scan_digits(uid) {
            Some(d) => d,
            None => return Err(UidError::InvalidFormat(quote(uid))),
        };
        let token = if starts_with_token(uid) {
            uid.substring_char(0, 3)
        } else {
            proof {
                reveal_strlit("");
            }
            ""
        };
        assert(token@ =~= prefix_token(uid@));
        let pfx = match UidPrefix::from_token(token) {
            Some(p) => p,
            None => {
                let mut m = quote(token);
                m.append(" prefix must be 'CHE' or 'ADM'");
                return Err(UidError::InvalidFormat(m));
            },
        };
        let payload = slice_subrange(digits.as_slice(), 0, 8);
        let declared = digits[8];
        assert(payload@ =~= text_digits(uid@).take(8));
        proof {
            assert forall|i: int| 0 <= i < 9 implies #[trigger] digits@[i] <= 9 by {
                assert(text_digits(uid@)[i] == digits@[i]);
            }
        }
        match calculate_checkdigit(payload) {
            Err(_) => {
                let mut m = quote(debug_string(pfx, payload, declared).as_str());
                m.append(" is prohibited from use");
                Err(UidError::InvalidCheckDigit(m))
            },
            Ok(c) => {
                if c != declared {
                    let mut m = quote(debug_string(pfx, payload, declared).as_str());
                    m.append(" should have the check digit [");
                    push_digit(&mut m, c);
                    m.append("]");
                    assert(m@ =~= quoted(debug_text(pfx, payload@, declared))
                        + " should have the check digit ["@ + seq![digit_char(c)] + "]"@);
                    Err(UidError::MismatchedCheckDigit(m))
                } else if payload[0] == 0 {
                    Err(UidError::LeadingZeroNotAllowed)
                } else {
                    let u = SwissUid::from_parts(pfx, payload, declared);
                    assert(parse_result(uid@) == Ok::<SwissUidView, UidErrorView>(u@));
                    proof {
                        use_type_invariant(&u);
                    }
                    Ok(u)
                }
            },
        }
    }

    /// The eight payload digits.
    fn payload_digits(&self) -> (r: Vec<u8>)
        ensures
            r@ == self@.digits,
    {
        let mut d = self.a.into_nibbles();
        let mut lo = self.b.into_nibbles();
        d.append(&mut lo);
        d
    }

    /// The canonical text, such as `CHE-109.322.551`.
    pub fn to_string(&self) -> (r: String)
        ensures
            r@ == plain_text(self@),
    {
        proof {
            use_type_invariant(self);
        }
        let d = self.payload_digits();
        let mut out = grouped_string(self.pfx, d.as_slice());
        push_digit(&mut out, self.p);
        out
    }

    /// The canonical text with the check digit in brackets, such as `CHE-109.322.55[1]`.
    pub fn to_string_debug(&self) -> (r: String)
        ensures
            r@ == debug_text(self@.prefix, self@.digits, self@.check),
    {
        proof {
            use_type_invariant(self);
        }
        let d = self.payload_digits();
        debug_string(self.pfx, d.as_slice(), self.p)
    }

    /// Returns the UID as a string with the suffix " MWST" (Mehrwertsteuer).
    pub fn to_string_mwst(&self) -> (r: String)
        ensures
            r@ == plain_text(self@) + " MWST"@,
    {
        let mut out = self.to_string();
        out.append(" MWST");
        out
    }

    /// Returns the UID as a string with the suffix " HR" (Handelsregister).
    pub fn to_string_hr(&self) -> (r: String)
        ensures
            r@ == plain_text(self@) + " HR"@,
    {
        let mut out = self.to_string();
        out.append(" HR");
        out
    }

    /// The check digit.
    pub fn checkdigit(&self) -> (r: u8)
        ensures
            r == self@.check,
    {
        proof {
            use_type_invariant(self);
        }
        self.p
    }

    /// The prefix.
    pub fn prefix(&self) -> (r: UidPrefix)
        ensures
            r == self@.prefix,
    {
        self.pfx
    }

    /// The two words that hold the payload: the first four digits and the
    /// last four, one digit per nibble, most significant first.
    pub fn packed_digits(&self) -> (r: (u16, u16))
        ensures
            r.0 as nat == nibbles_value(self@.digits.take(4)),
            r.1 as nat == nibbles_value(self@.digits.skip(4)),
    {
        proof {
            reveal_with_fuel(pow16, 5);
            lemma_nibbles_value_unpack(self.a as nat, 4);
            lemma_nibbles_value_unpack(self.b as nat, 4);
            assert(self@.digits.take(4) =~= unpack(self.a as nat, 4));
            assert(self@.digits.skip(4) =~= unpack(self.b as nat, 4));
        }
        (self.a, self.b)
    }

    /// Builds a commercial-register identifier from eight drawn digits, the
    /// first in `1..=9` and the others in `0..=9`. Where they have no check
    /// digit, the first digit is moved by one, which always gives one.
    pub fn from_drawn_digits(digits: [u8; 8]) -> (r: Self)
        requires
            1 <= digits[0] <= 9,
            forall|i: int| 0 <= i < 8 ==> #[trigger] digits@[i] <= 9,
        ensures
            r@ == (SwissUidView {
                prefix: UidPrefix::CHE,
                digits: adjusted_payload(digits@),
                check: check_digit(adjusted_payload(digits@))->Some_0,
            }),
    {
        let mut n = digits;
        let check = match calculate_checkdigit(n.as_slice()) {
            Ok(c) => c,
            Err(_) => {
                if n[0] <= 1 {
                    n[0] = n[0] + 1;
                } else {
                    n[0] = n[0] - 1;
                }
                proof {
                    assert(n@ =~= adjusted_payload(digits@));
                    assert(weighted_sum(digits@) % 11 == 1);
                }
                match calculate_checkdigit(n.as_slice()) {
                    Ok(c) => c,
                    Err(_) => {
                        proof {
                            assert(false);
                        }
                        0
                    },
                }
            },
        };
        assert(n@ =~= adjusted_payload(digits@));
        SwissUid::from_parts(UidPrefix::CHE, n.as_slice(), check)
    }

    /// Generates a random valid Swiss UID with the commercial-register prefix.
    pub fn rand() -> (r: Result<Self, UidError>)
        ensures
            r is Ok,
            r->Ok_0@.prefix == UidPrefix::CHE,
            is_valid_uid(r->Ok_0@),
            parse_result(plain_text(r->Ok_0@)) == Ok::<SwissUidView, UidErrorView>(r->Ok_0@),
    {
        let mut rng = thread_rng();
        let mut n: [u8; 8] = [0; 8];
        n[0] = gen_range_u8(&mut rng, 1, 10);
        let mut i: usize = 1;
        while i < 8
            invariant
                1 <= i <= 8,
                1 <= n[0] <= 9,
                forall|j: int| 0 <= j < 8 ==> #[trigger] n@[j] <= 9,
            decreases 8 - i,
        {
            n[i] = gen_range_u8(&mut rng, 0, 10);
            i = i + 1;
        }
        let u = SwissUid::from_drawn_digits(n);
        proof {
            use_type_invariant(&u);
            lemma_round_trip(u@);
        }
        Ok(u)
    }
}

/// Two identifiers are equal exactly when their prefixes, payloads and check
/// digits are.
pub proof fn lemma_eq_iff_view_eq(x: SwissUid, y: SwissUid)
    ensures
        (x == y) <==> (x@ == y@),
{
    if x@ == y@ {
        reveal_with_fuel(pow16, 5);
        lemma_nibbles_value_unpack(x.a as nat, 4);
        lemma_nibbles_value_unpack(x.b as nat, 4);
        lemma_nibbles_value_unpack(y.a as nat, 4);
        lemma_nibbles_value_unpack(y.b as nat, 4);
        assert(x@.digits.take(4) =~= unpack(x.a as nat, 4));
        assert(y@.digits.take(4) =~= unpack(y.a as nat, 4));
        assert(x@.digits.skip(4) =~= unpack(x.b as nat, 4));
        assert(y@.digits.skip(4) =~= unpack(y.b as nat, 4));
    }
}

impl std::str::FromStr for SwissUid {
    type Err = UidError;

    fn from_str(s: &str) -> Result<Self, Self::Err> {
        SwissUid::new(s)
    }
}

} // verus!
