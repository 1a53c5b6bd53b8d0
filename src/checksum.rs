use vstd::prelude::*;

use crate::uid::{UidError, UidErrorView};

verus! {

/// Factors applied to the eight payload digits, most significant first.
const DIGIT_FACTORS: [u32; 8] = [5, 4, 3, 2, 7, 6, 5, 4];

/// The weighted sum of eight payload digits.
pub open spec fn weighted_sum(d: Seq<u8>) -> int {
    5 * d[0] + 4 * d[1] + 3 * d[2] + 2 * d[3] + 7 * d[4] + 6 * d[5] + 5 * d[6] + 4 * d[7]
}

/// The check digit of eight payload digits, or `None` where the modulo-11
/// reduction gives 10, which no single digit can stand for.
pub open spec fn check_digit(d: Seq<u8>) -> Option<u8> {
    let r = 11 - weighted_sum(d) % 11;
    if r == 11 {
        Some(0)
    } else if r == 10 {
        None
    } else {
        Some(r as u8)
    }
}

/// What `calculate_checkdigit` returns for the given digits.
pub open spec fn checkdigit_result(d: Seq<u8>) -> Result<u8, UidErrorView> {
    if d.len() != 8 {
        Err(UidErrorView::InvalidFormat("UID must have 8 digits"@))
    } else {
        match check_digit(d) {
            Some(c) => Ok(c),
            None => Err(UidErrorView::InvalidCheckDigit("10"@)),
        }
    }
}

spec fn factor(i: int) -> int {
    seq![5int, 4, 3, 2, 7, 6, 5, 4][i]
}

/// Weighted sum of the first `n` digits.
spec fn partial_sum(d: Seq<u8>, n: int) -> int
    decreases n,
{
    if n <= 0 {
        0
    } else {
        partial_sum(d, n - 1) + factor(n - 1) * d[n - 1]
    }
}

proof fn lemma_partial_sum_bound(d: Seq<u8>, n: int)
    requires
        0 <= n <= 8,
        n <= d.len(),
    ensures
        0 <= partial_sum(d, n) <= 1785 * n,
    decreases n,
{
    if n > 0 {
        lemma_partial_sum_bound(d, n - 1);
        assert(0 <= factor(n - 1) <= 7);
        assert(partial_sum(d, n) == partial_sum(d, n - 1) + factor(n - 1) * d[n - 1]);
        assert(1785 * (n - 1) + 1785 == 1785 * n);
        assert(0 <= factor(n - 1) * d[n - 1] <= 1785) by (nonlinear_arith)
            requires
                0 <= factor(n - 1) <= 7,
                0 <= d[n - 1] <= 255,
        ;
    }
}

proof fn lemma_partial_sum_full(d: Seq<u8>)
    requires
        d.len() == 8,
    ensures
        partial_sum(d, 8) == weighted_sum(d),
{
    reveal_with_fuel(partial_sum, 9);
}

/// Calculates the check digit for the given 8 normal digits of the UID.
pub fn calculate_checkdigit(main_digits: &[u8]) -> (r: Result<u8, UidError>)
    ensures
        match r {
            Ok(c) => checkdigit_result(main_digits@) == Ok::<u8, UidErrorView>(c),
            Err(e) => checkdigit_result(main_digits@) == Err::<u8, UidErrorView>(e@),
        },
{
    if main_digits.len() != 8 {
        return Err(UidError::InvalidFormat(String::from_str("UID must have 8 digits")));
    }
    let factors = DIGIT_FACTORS;
    assert(factors@ == seq![5u32, 4, 3, 2, 7, 6, 5, 4]);
    let mut sum: u32 = 0;
    let mut i: usize = 0;
    while i < 8
        invariant
            i <= 8,
            main_digits@.len() == 8,
            factors@ == seq![5u32, 4, 3, 2, 7, 6, 5, 4],
            sum == partial_sum(main_digits@, i as int),
        decreases 8 - i,
    {
        proof {
            lemma_partial_sum_bound(main_digits@, i as int + 1);
            assert(factors[i as int] as int == factor(i as int));
            assert(0 <= factors[i as int] <= 7);
            assert(0 <= factors[i as int] * main_digits@[i as int] <= 1785) by (nonlinear_arith)
                requires
                    0 <= factors[i as int] <= 7,
                    0 <= main_digits@[i as int] <= 255,
            ;
            assert(partial_sum(main_digits@, i + 1) == sum + factors[i as int] * main_digits@[i as int]);
        }
        sum = sum + factors[i] * (main_digits[i] as u32);
        i = i + 1;
    }
    proof {
        lemma_partial_sum_full(main_digits@);
    }
    let r = 11 - sum % 11;
    if r == 11 {
        Ok(0)
    } else if r == 10 {
        Err(UidError::InvalidCheckDigit(String::from_str("10")))
    } else {
        Ok(r as u8)
    }
}

} // verus!
