//! Checkpoint identifiers.
//!
//! The history hands out the decimal numerals `0`, `1`, `2`, ... in turn.
//! The count of identifiers handed out is kept as a list of decimal digits,
//! so it has no largest value.

use vstd::prelude::*;

verus! {

/// The character for a decimal digit.
pub open spec fn digit_char(d: nat) -> char {
    if d == 0 {
        '0'
    } else if d == 1 {
        '1'
    } else if d == 2 {
        '2'
    } else if d == 3 {
        '3'
    } else if d == 4 {
        '4'
    } else if d == 5 {
        '5'
    } else if d == 6 {
        '6'
    } else if d == 7 {
        '7'
    } else if d == 8 {
        '8'
    } else {
        '9'
    }
}

/// The digit a character stands for; 0 for a character that is no digit.
pub open spec fn digit_value(c: char) -> nat {
    if c == '1' {
        1
    } else if c == '2' {
        2
    } else if c == '3' {
        3
    } else if c == '4' {
        4
    } else if c == '5' {
        5
    } else if c == '6' {
        6
    } else if c == '7' {
        7
    } else if c == '8' {
        8
    } else if c == '9' {
        9
    } else {
        0
    }
}

/// The decimal numeral of `n`, without leading zeros.
pub open spec fn decimal_text(n: nat) -> Seq<char>
    decreases n,
{
    if n < 10 {
        seq![digit_char(n)]
    } else {
        decimal_text(n / 10).push(digit_char(n % 10))
    }
}

/// The number a string of digits stands for.
pub open spec fn decimal_value(s: Seq<char>) -> nat
    decreases s.len(),
{
    if s.len() == 0 {
        0
    } else {
        decimal_value(s.drop_last()) * 10 + digit_value(s.last())
    }
}

/// Reading the numeral of `n` gives `n` back.
pub proof fn lemma_decimal_round_trip(n: nat)
    ensures
        decimal_value(decimal_text(n)) == n,
    decreases n,
{
    if n < 10 {
        let s = decimal_text(n);
        assert(s.drop_last().len() == 0);
        assert(decimal_value(s.drop_last()) == 0);
    } else {
        lemma_decimal_round_trip(n / 10);
        let s = decimal_text(n);
        assert(s.drop_last() =~= decimal_text(n / 10));
        assert(s.last() == digit_char(n % 10));
    }
}

/// Different numbers have different numerals.
pub proof fn lemma_decimal_injective(a: nat, b: nat)
    requires
        decimal_text(a) == decimal_text(b),
    ensures
        a == b,
{
    lemma_decimal_round_trip(a);
    lemma_decimal_round_trip(b);
}

/// The decimal digits of `n`, least significant first.
pub open spec fn digits_of(n: nat) -> Seq<u8>
    decreases n,
{
    if n < 10 {
        seq![n as u8]
    } else {
        seq![(n % 10) as u8] + digits_of(n / 10)
    }
}

/// The number held by a list of digits, least significant first.
pub open spec fn digits_value(digits: Seq<u8>) -> nat
    decreases digits.len(),
{
    if digits.len() == 0 {
        0
    } else {
        digits[0] as nat + 10 * digits_value(digits.skip(1))
    }
}

/// The digits that follow `digits` in counting.
pub open spec fn next_digits(digits: Seq<u8>) -> Seq<u8>
    decreases digits.len(),
{
    if digits.len() == 0 {
        seq![1u8]
    } else if digits[0] == 9 {
        seq![0u8] + next_digits(digits.skip(1))
    } else {
        seq![(digits[0] + 1) as u8] + digits.skip(1)
    }
}

/// A list of digits, least significant first, written most significant
/// first.
pub open spec fn digits_text(digits: Seq<u8>) -> Seq<char>
    decreases digits.len(),
{
    if digits.len() == 0 {
        Seq::empty()
    } else {
        digits_text(digits.skip(1)).push(digit_char(digits[0] as nat))
    }
}

/// Whether `digits` is the digit list of the number it holds.
pub open spec fn is_counter(digits: Seq<u8>) -> bool {
    digits == digits_of(digits_value(digits))
}

/// Each digit of a number is below ten.
pub proof fn lemma_digits_small(n: nat)
    ensures
        digits_of(n).len() >= 1,
        forall|i: int| 0 <= i < digits_of(n).len() ==> #[trigger] digits_of(n)[i] < 10,
    decreases n,
{
    if n >= 10 {
        lemma_digits_small(n / 10);
    }
}

/// The digits of `n` hold `n`.
pub proof fn lemma_digits_round_trip(n: nat)
    ensures
        digits_value(digits_of(n)) == n,
        is_counter(digits_of(n)),
    decreases n,
{
    let d = digits_of(n);
    if n < 10 {
        assert(d.skip(1).len() == 0);
        assert(digits_value(d.skip(1)) == 0);
    } else {
        lemma_digits_round_trip(n / 10);
        assert(d.skip(1) =~= digits_of(n / 10));
    }
}

/// Counting on from the digits of `n` gives the digits of `n + 1`.
pub proof fn lemma_next_digits(n: nat)
    ensures
        next_digits(digits_of(n)) == digits_of(n + 1),
    decreases n,
{
    let d = digits_of(n);
    if n < 10 {
        assert(d.skip(1) =~= Seq::<u8>::empty());
        if n == 9 {
            assert(next_digits(d.skip(1)) =~= seq![1u8]);
            assert(digits_of(1) =~= seq![1u8]);
            assert(digits_of(10) =~= seq![0u8] + digits_of(1));
        } else {
            assert(next_digits(d) =~= digits_of(n + 1));
        }
    } else {
        assert(d.skip(1) =~= digits_of(n / 10));
        if n % 10 == 9 {
            lemma_next_digits(n / 10);
            assert((n + 1) / 10 == n / 10 + 1);
            assert((n + 1) % 10 == 0);
        } else {
            assert((n + 1) / 10 == n / 10);
            assert((n + 1) % 10 == n % 10 + 1);
            assert(next_digits(d) =~= digits_of(n + 1));
        }
    }
}

/// The digits of `n`, written most significant first, are the numeral of
/// `n`.
pub proof fn lemma_digits_text(n: nat)
    ensures
        digits_text(digits_of(n)) == decimal_text(n),
    decreases n,
{
    let d = digits_of(n);
    if n < 10 {
        assert(d.skip(1) =~= Seq::<u8>::empty());
        assert(digits_text(d.skip(1)) =~= Seq::<char>::empty());
        assert(digits_text(d) =~= decimal_text(n));
    } else {
        lemma_digits_text(n / 10);
        assert(d.skip(1) =~= digits_of(n / 10));
    }
}

/// The character for the digit `d`.
fn digit_to_char(d: u8) -> (c: char)
    requires
        d < 10,
    ensures
        c == digit_char(d as nat),
{
    if d == 0 {
        '0'
    } else if d == 1 {
        '1'
    } else if d == 2 {
        '2'
    } else if d == 3 {
        '3'
    } else if d == 4 {
        '4'
    } else if d == 5 {
        '5'
    } else if d == 6 {
        '6'
    } else if d == 7 {
        '7'
    } else if d == 8 {
        '8'
    } else {
        '9'
    }
}

/// The digit list of zero.
pub(crate) fn zero_counter() -> (digits: Vec<u8>)
    ensures
        is_counter(digits@),
        digits_value(digits@) == 0,
{
    let mut digits: Vec<u8> = Vec::new();
    digits.push(0);
    proof {
        lemma_digits_round_trip(0);
        assert(digits@ =~= digits_of(0));
    }
    digits
}

/// The numeral of the number that `digits` holds.
pub(crate) fn counter_text(digits: &Vec<u8>) -> (text: String)
    requires
        is_counter(digits@),
    ensures
        text@ == decimal_text(digits_value(digits@)),
{
    let mut text = String::new();
    let mut i: usize = digits.len();
    proof {
        lemma_digits_small(digits_value(digits@));
        lemma_digits_text(digits_value(digits@));
        assert(digits@.skip(i as int).len() == 0);
    }
    while i > 0
        invariant
            i <= digits.len(),
            forall|k: int| 0 <= k < digits.len() ==> #[trigger] digits[k] < 10,
            text@ == digits_text(digits@.skip(i as int)),
        decreases i,
    {
        i -= 1;
        text.push(digit_to_char(digits[i]));
        assert(digits@.skip(i as int).skip(1) =~= digits@.skip(i + 1));
    }
    assert(digits@.skip(0) =~= digits@);
    text
}

/// The digit list of the number after the one that `digits` holds.
pub(crate) fn counter_next(digits: &Vec<u8>) -> (next: Vec<u8>)
    requires
        is_counter(digits@),
    ensures
        is_counter(next@),
        digits_value(next@) == digits_value(digits@) + 1,
{
    let mut next: Vec<u8> = Vec::new();
    let mut carry = true;
    let mut i: usize = 0;
    proof {
        lemma_digits_small(digits_value(digits@));
        assert(digits@.skip(0) =~= digits@);
        assert(next@ + next_digits(digits@) =~= next_digits(digits@));
    }
    while i < digits.len()
        invariant
            i <= digits.len(),
            forall|k: int| 0 <= k < digits.len() ==> #[trigger] digits[k] < 10,
            next_digits(digits@) == next@ + if carry {
                next_digits(digits@.skip(i as int))
            } else {
                digits@.skip(i as int)
            },
        decreases digits.len() - i,
    {
        let d = digits[i];
        let ghost rest = digits@.skip(i as int);
        let ghost before = next@;
        proof {
            assert(rest[0] == d);
            assert(rest.skip(1) =~= digits@.skip(i + 1));
            assert(rest =~= seq![d] + rest.skip(1));
        }
        if carry {
            if d == 9 {
                next.push(0);
                assert(before + (seq![0u8] + next_digits(rest.skip(1))) =~= next@ + next_digits(
                    rest.skip(1),
                ));
            } else {
                next.push(d + 1);
                carry = false;
                assert(before + (seq![(d + 1) as u8] + rest.skip(1)) =~= next@ + rest.skip(1));
            }
        } else {
            next.push(d);
            assert(before + rest =~= next@ + rest.skip(1));
        }
        i += 1;
    }
    proof {
        assert(digits@.skip(digits@.len() as int) =~= Seq::<u8>::empty());
    }
    if carry {
        next.push(1);
    } else {
        assert(next@ + Seq::<u8>::empty() =~= next@);
    }
    proof {
        let n = digits_value(digits@);
        assert(next@ =~= next_digits(digits@));
        lemma_next_digits(n);
        lemma_digits_round_trip(n + 1);
    }
    next
}

} // verus!
