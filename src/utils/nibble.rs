//! Packing of small digits (each below 16) into the nibbles of an unsigned
//! integer, most significant nibble first, and unpacking them again.

use vstd::arithmetic::div_mod::lemma_div_denominator;
use vstd::prelude::*;

verus! {

/// `16` raised to the power `k`.
pub open spec fn pow16(k: nat) -> nat
    decreases k,
{
    if k == 0 {
        1
    } else {
        16 * pow16((k - 1) as nat)
    }
}

/// Every element fits in a nibble.
pub open spec fn all_nibbles(s: Seq<u8>) -> bool {
    forall|i: int| 0 <= i < s.len() ==> s[i] < 16
}

/// The number whose base-16 digits, most significant first, are `s`.
pub open spec fn nibbles_value(s: Seq<u8>) -> nat
    decreases s.len(),
{
    if s.len() == 0 {
        0
    } else {
        nibbles_value(s.drop_last()) * 16 + s.last() as nat
    }
}

/// The nibble of `x` at position `k`, counted from the least significant.
pub open spec fn nibble(x: nat, k: nat) -> u8 {
    ((x / pow16(k)) % 16) as u8
}

/// The lowest `count` nibbles of `x`, most significant first.
pub open spec fn unpack(x: nat, count: nat) -> Seq<u8> {
    Seq::new(count, |i: int| nibble(x, (count - 1 - i) as nat))
}

/// The first `n` elements of `s`, or all of them where there are fewer.
pub open spec fn leading(s: Seq<u8>, n: nat) -> Seq<u8> {
    if s.len() <= n {
        s
    } else {
        s.take(n as int)
    }
}

/// An unsigned integer that can be built from nibbles.
pub trait FromNibbles: Sized {
    /// How many nibbles a value holds.
    spec fn nibble_count() -> nat;

    /// The value as a natural number.
    spec fn value_of(self) -> nat;

    /// Packs the first `nibble_count()` elements of `digits`, most
    /// significant first; further elements are not read.
    fn from_nibbles(digits: &[u8]) -> (r: Self)
        requires
            all_nibbles(digits@),
        ensures
            r.value_of() == nibbles_value(leading(digits@, Self::nibble_count())),
    ;
}

/// A sequence of nibbles that packs into a `T`.
pub trait IntoNibblesNum<T: FromNibbles> {
    /// The nibbles, most significant first.
    spec fn nibbles(&self) -> Seq<u8>;

    fn into_nibbles_num(&self) -> (r: T)
        requires
            all_nibbles(self.nibbles()),
        ensures
            r.value_of() == nibbles_value(leading(self.nibbles(), T::nibble_count())),
    ;
}

impl<T: FromNibbles> IntoNibblesNum<T> for [u8] {
    open spec fn nibbles(&self) -> Seq<u8> {
        self@
    }

    fn into_nibbles_num(&self) -> (r: T) {
        T::from_nibbles(self)
    }
}

/// An unsigned integer that can be split into its nibbles.
pub trait IntoNibbles: FromNibbles {
    /// All nibbles of the value, most significant first.
    fn into_nibbles(self) -> (r: Vec<u8>)
        ensures
            r@ == unpack(self.value_of(), Self::nibble_count()),
    ;
}

pub proof fn lemma_pow16_positive(k: nat)
    ensures
        pow16(k) > 0,
    decreases k,
{
    if k > 0 {
        lemma_pow16_positive((k - 1) as nat);
    }
}

/// A sequence of nibbles stands for a number below `16` to the power of its length.
pub proof fn lemma_nibbles_value_bound(s: Seq<u8>)
    requires
        all_nibbles(s),
    ensures
        nibbles_value(s) < pow16(s.len()),
    decreases s.len(),
{
    if s.len() > 0 {
        lemma_nibbles_value_bound(s.drop_last());
        let v = nibbles_value(s.drop_last());
        let p = pow16((s.len() - 1) as nat);
        assert(v * 16 + s.last() < p * 16) by (nonlinear_arith)
            requires
                v < p,
                s.last() < 16,
        ;
    }
}

/// Unpacking what was packed gives the nibbles back.
pub proof fn lemma_unpack_nibbles_value(s: Seq<u8>)
    requires
        all_nibbles(s),
    ensures
        unpack(nibbles_value(s), s.len()) == s,
    decreases s.len(),
{
    let x = nibbles_value(s);
    let n = s.len();
    if n > 0 {
        let init = s.drop_last();
        lemma_unpack_nibbles_value(init);
        let v = nibbles_value(init);
        assert(x == v * 16 + s.last());
        assert forall|i: int| 0 <= i < n implies #[trigger] unpack(x, n)[i] == s[i] by {
            let k = (n - 1 - i) as nat;
            if k == 0 {
                assert(pow16(0) == 1);
                assert((v * 16 + s.last()) % 16 == s.last() as int) by (nonlinear_arith)
                    requires
                        s.last() < 16,
                ;
            } else {
                let k1 = (k - 1) as nat;
                lemma_pow16_positive(k1);
                assert(pow16(k) == 16 * pow16(k1));
                lemma_div_denominator(x as int, 16, pow16(k1) as int);
                assert(x as int / 16 == v) by (nonlinear_arith)
                    requires
                        x == v * 16 + s.last(),
                        s.last() < 16,
                ;
                assert(unpack(v, init.len())[i] == init[i]);
            }
        }
        assert(unpack(x, n) =~= s);
    }
}

/// Packing the unpacked nibbles of a number below `16^n` gives the number back.
pub proof fn lemma_nibbles_value_unpack(x: nat, n: nat)
    requires
        x < pow16(n),
    ensures
        nibbles_value(unpack(x, n)) == x,
    decreases n,
{
    let s = unpack(x, n);
    if n == 0 {
        assert(pow16(0) == 1);
    } else {
        let p = pow16((n - 1) as nat);
        lemma_pow16_positive((n - 1) as nat);
        assert(x / 16 < p) by (nonlinear_arith)
            requires
                x < 16 * p,
        ;
        lemma_nibbles_value_unpack(x / 16, (n - 1) as nat);
        let t = unpack(x / 16, (n - 1) as nat);
        assert forall|i: int| 0 <= i < n - 1 implies #[trigger] s.drop_last()[i] == t[i] by {
            let k = (n - 2 - i) as nat;
            lemma_pow16_positive(k);
            assert(pow16(k + 1) == 16 * pow16(k));
            lemma_div_denominator(x as int, 16, pow16(k) as int);
        }
        assert(s.drop_last() =~= t);
        assert(pow16(0) == 1);
        assert(x / pow16(0) == x);
        assert(s[n - 1] == nibble(x, 0));
        assert(s.last() == x % 16);
        assert((x / 16) * 16 + x % 16 == x) by (nonlinear_arith);
    }
}

/// The nibbles collected so far are those of `x` below position `j`.
proof fn lemma_split_nibbles(x: nat, j: nat, r: Seq<u8>, rest: nat)
    requires
        rest == x / pow16(j),
        r.len() == j,
        forall|i: int| 0 <= i < j ==> #[trigger] r[i] == nibble(x, (j - 1 - i) as nat),
    ensures
        forall|i: int|
            0 <= i < j + 1 ==> #[trigger] (seq![(rest % 16) as u8] + r)[i] == nibble(
                x,
                (j - i) as nat,
            ),
{
    let t = seq![(rest % 16) as u8] + r;
    assert forall|i: int| 0 <= i < j + 1 implies #[trigger] t[i] == nibble(x, (j - i) as nat) by {
        if i > 0 {
            assert(t[i] == r[i - 1]);
        }
    }
}

impl FromNibbles for u16 {
    open spec fn nibble_count() -> nat {
        4
    }

    open spec fn value_of(self) -> nat {
        self as nat
    }

    fn from_nibbles(digits: &[u8]) -> (r: u16) {
        let n: usize = if digits.len() < 4 {
            digits.len()
        } else {
            4
        };
        let mut acc: u16 = 0;
        let mut i: usize = 0;
        while i < n
            invariant
                n <= 4,
                n <= digits@.len(),
                i <= n,
                all_nibbles(digits@),
                acc as nat == nibbles_value(digits@.take(i as int)),
            decreases n - i,
        {
            proof {
                lemma_nibbles_value_bound(digits@.take(i as int));
                reveal_with_fuel(pow16, 4);
            }
            let d = digits[i] as u16;
            assert((acc << 4u16) | d == acc * 16 + d) by (bit_vector)
                requires
                    acc < 4096,
                    d < 16,
            ;
            acc = (acc << 4u16) | d;
            assert(digits@.take(i + 1).drop_last() =~= digits@.take(i as int));
            i = i + 1;
        }
        assert(digits@.take(n as int) =~= leading(digits@, 4));
        acc
    }
}

impl IntoNibbles for u16 {
    fn into_nibbles(self) -> (r: Vec<u8>) {
        let mut r: Vec<u8> = Vec::new();
        let mut rest: u16 = self;
        let mut j: usize = 0;
        proof {
            assert(pow16(0) == 1);
        }
        while j < 4
            invariant
                j <= 4,
                r@.len() == j,
                rest as nat == self as nat / pow16(j as nat),
                forall|i: int| 0 <= i < j ==> #[trigger] r@[i] == nibble(self as nat, (j - 1 - i) as nat),
            decreases 4 - j,
        {
            assert(rest & 0xfu16 == rest % 16) by (bit_vector);
            assert(rest >> 4u16 == rest / 16) by (bit_vector);
            let d = (rest & 0xf) as u8;
            proof {
                lemma_pow16_positive(j as nat);
                assert(pow16(j as nat + 1) == 16 * pow16(j as nat));
                lemma_div_denominator(self as int, pow16(j as nat) as int, 16);
                assert(pow16(j as nat) * 16 == 16 * pow16(j as nat));
                lemma_split_nibbles(self as nat, j as nat, r@, rest as nat);
            }
            r.insert(0, d);
            rest = rest >> 4u16;
            j = j + 1;
        }
        assert(r@ =~= unpack(self as nat, 4));
        r
    }
}

impl FromNibbles for u32 {
    open spec fn nibble_count() -> nat {
        8
    }

    open spec fn value_of(self) -> nat {
        self as nat
    }

    fn from_nibbles(digits: &[u8]) -> (r: u32) {
        let n: usize = if digits.len() < 8 {
            digits.len()
        } else {
            8
        };
        let mut acc: u32 = 0;
        let mut i: usize = 0;
        while i < n
            invariant
                n <= 8,
                n <= digits@.len(),
                i <= n,
                all_nibbles(digits@),
                acc as nat == nibbles_value(digits@.take(i as int)),
            decreases n - i,
        {
            proof {
                lemma_nibbles_value_bound(digits@.take(i as int));
                reveal_with_fuel(pow16, 8);
            }
            let d = digits[i] as u32;
            assert((acc << 4u32) | d == acc * 16 + d) by (bit_vector)
                requires
                    acc < 0x1000_0000,
                    d < 16,
            ;
            acc = (acc << 4u32) | d;
            assert(digits@.take(i + 1).drop_last() =~= digits@.take(i as int));
            i = i + 1;
        }
        assert(digits@.take(n as int) =~= leading(digits@, 8));
        acc
    }
}

impl IntoNibbles for u32 {
    fn into_nibbles(self) -> (r: Vec<u8>) {
        let mut r: Vec<u8> = Vec::new();
        let mut rest: u32 = self;
        let mut j: usize = 0;
        proof {
            assert(pow16(0) == 1);
        }
        while j < 8
            invariant
                j <= 8,
                r@.len() == j,
                rest as nat == self as nat / pow16(j as nat),
                forall|i: int| 0 <= i < j ==> #[trigger] r@[i] == nibble(self as nat, (j - 1 - i) as nat),
            decreases 8 - j,
        {
            assert(rest & 0xfu32 == rest % 16) by (bit_vector);
            assert(rest >> 4u32 == rest / 16) by (bit_vector);
            let d = (rest & 0xf) as u8;
            proof {
                lemma_pow16_positive(j as nat);
                assert(pow16(j as nat + 1) == 16 * pow16(j as nat));
                lemma_div_denominator(self as int, pow16(j as nat) as int, 16);
                assert(pow16(j as nat) * 16 == 16 * pow16(j as nat));
                lemma_split_nibbles(self as nat, j as nat, r@, rest as nat);
            }
            r.insert(0, d);
            rest = rest >> 4u32;
            j = j + 1;
        }
        assert(r@ =~= unpack(self as nat, 8));
        r
    }
}

} // verus!
