//! What numerals stand for, and which texts are numerals.
use vstd::prelude::*;

use crate::json::{pointer_index, JsonTree};
use crate::laws::documents::single_tokens_lead;
use crate::numbers::{
    decimal, decimal_reads_back, digits_value, lemma_decimal_digits, number_read, signed_decimal,
    without_plus,
};
use crate::text::{all_digits, ascii_digit, has_prefix};

verus! {

/// A negative number is written with a sign before its digits, another with its digits alone.
pub proof fn numbers_are_written_with_their_sign(n: int)
    ensures
        n < 0 ==> signed_decimal(n)[0] == '-' && all_digits(signed_decimal(n).skip(1))
            && signed_decimal(n).len() > 1 && digits_value(signed_decimal(n).skip(1)) == -n,
        n >= 0 ==> all_digits(signed_decimal(n)) && signed_decimal(n).len() > 0 && digits_value(
            signed_decimal(n),
        ) == n,
{
    if n < 0 {
        decimal_reads_back((-n) as nat);
        lemma_decimal_digits((-n) as nat);
        assert(signed_decimal(n).skip(1) == decimal((-n) as nat));
    } else {
        decimal_reads_back(n as nat);
        lemma_decimal_digits(n as nat);
    }
}

/// A number is read from digits alone, which may stand after one plus sign.
pub proof fn numbers_are_read_from_digits(digits: Seq<char>, max: nat)
    ensures
        digits.len() > 0 && all_digits(digits) && digits_value(digits) <= max ==> number_read(
            digits,
            max,
        ) == Some(digits_value(digits)) && number_read(seq!['+'] + digits, max) == Some(
            digits_value(digits),
        ),
        digits.len() > 0 && all_digits(digits) && digits_value(digits) > max ==> number_read(
            digits,
            max,
        ) is None,
        digits.len() == 0 ==> number_read(digits, max) is None,
        !all_digits(digits) ==> number_read(seq!['+'] + digits, max) is None,
        !all_digits(digits) && digits[0] != '+' ==> number_read(digits, max) is None,
{
    assert((seq!['+'] + digits).drop_first() == digits);
    assert((seq!['+'] + digits)[0] == '+');
    if digits.len() > 0 && all_digits(digits) {
        assert(ascii_digit(digits[0]));
        assert(without_plus(digits) == digits);
    }
}

/// A numeral in a pointer leads to the item at its position; one with a sign or with needless zeros
/// leads nowhere.
pub proof fn pointers_lead_by_positions(items: Seq<JsonTree>, n: nat, token: Seq<char>)
    requires
        n <= usize::MAX,
    ensures
        JsonTree::Array(items).pointer(seq!['/'] + decimal(n)) == if n < items.len() {
            Some(items[n as int])
        } else {
            None
        },
        token.len() > 0 && token[0] == '+' ==> pointer_index(token) is None,
        token.len() > 1 && token[0] == '0' ==> pointer_index(token) is None,
{
    decimal_reads_back(n);
    lemma_decimal_digits(n);
    lemma_first_digit(n);
    let numeral = decimal(n);
    reveal_strlit("+");
    reveal_strlit("0");
    if token.len() > 0 {
        assert(token[0] == '+' ==> token.subrange(0, 1) == "+"@);
        assert(token[0] == '0' ==> token.subrange(0, 1) == "0"@);
    }
    assert(numeral.subrange(0, 1)[0] == numeral[0]);
    assert(ascii_digit(numeral[0]));
    assert(!(has_prefix(numeral, "+"@))) by {
        assert("+"@[0] == '+');
    }
    assert(numeral.len() != 1 ==> !(has_prefix(numeral, "0"@))) by {
        assert("0"@[0] == '0');
    }
    assert(pointer_index(numeral) == Some(n));
    assert forall|i: int| 0 <= i < numeral.len() implies numeral[i] != '/' && numeral[i] != '~' by {
        assert(ascii_digit(numeral[i]));
    }
    single_tokens_lead(JsonTree::Array(items), numeral);
}

proof fn lemma_first_digit(n: nat)
    ensures
        decimal(n).len() > 1 ==> decimal(n)[0] != '0',
        n > 0 ==> decimal(n)[0] != '0',
        n < 10 ==> decimal(n).len() == 1,
    decreases n,
{
    if n >= 10 {
        lemma_first_digit(n / 10);
        assert(decimal(n)[0] == decimal(n / 10)[0]) by {
            lemma_decimal_digits(n / 10);
        }
    }
}

} // verus!
