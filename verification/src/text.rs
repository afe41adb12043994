//! Text helpers: comparing strings and reading decimal numbers.

use vstd::prelude::*;

verus! {

/// Whether the two texts are made of the same characters.
pub fn same_text(left: &str, right: &str) -> (same: bool)
    ensures
        same == (left@ == right@),
{
    left.to_owned() == right.to_owned()
}

} // verus!

verus! {

/// Whether `c` is one of the ten decimal digits.
pub open spec fn is_digit(c: char) -> bool {
    '0' <= c <= '9'
}

/// The number that the decimal digit `c` stands for.
pub open spec fn digit_value(c: char) -> nat {
    (c as nat - '0' as nat) as nat
}

/// The number that a run of decimal digits spells, most significant digit
/// first. The empty run spells zero.
pub open spec fn digits_value(digits: Seq<char>) -> nat
    decreases digits.len(),
{
    if digits.len() == 0 {
        0
    } else {
        digits_value(digits.drop_last()) * 10 + digit_value(digits.last())
    }
}

/// Whether `text` consists of decimal digits only.
pub open spec fn all_digits(text: Seq<char>) -> bool {
    forall|i: int| 0 <= i < text.len() ==> is_digit(#[trigger] text[i])
}

/// `text` without its leading plus sign, if it has one.
pub open spec fn unsigned_part(text: Seq<char>) -> Seq<char> {
    if text.len() > 0 && text[0] == '+' {
        text.drop_first()
    } else {
        text
    }
}

/// The amount that `text` spells: an optional plus sign followed by one or
/// more decimal digits whose number fits a `usize`. Anything else spells no
/// amount.
pub open spec fn amount_of(text: Seq<char>) -> Option<usize> {
    let digits = unsigned_part(text);
    if digits.len() > 0 && all_digits(digits) && digits_value(digits) <= usize::MAX {
        Some(digits_value(digits) as usize)
    } else {
        None
    }
}

/// A run of digits spells at least as much as any of its prefixes.
pub proof fn lemma_digits_value_grows(digits: Seq<char>, end: int)
    requires
        0 <= end <= digits.len(),
    ensures
        digits_value(digits.subrange(0, end)) <= digits_value(digits),
    decreases digits.len(),
{
    if end == digits.len() {
        assert(digits.subrange(0, end) =~= digits);
    } else {
        lemma_digits_value_grows(digits.drop_last(), end);
        assert(digits.drop_last().subrange(0, end) =~= digits.subrange(0, end));
    }
}

/// Reads a decimal amount: an optional plus sign, then one or more decimal
/// digits. `None` for any other text and for a number beyond `usize`.
pub fn parse_amount(text: &str) -> (amount: Option<usize>)
    ensures
        amount == amount_of(text@),
{
    let mut value: usize = 0;
    let mut signed: bool = false;
    let mut any: bool = false;
    let ghost mut digits: int = 0;
    for c in it: text.chars()
        invariant
            it.seq() == text@,
            0 <= digits,
            any <==> digits > 0,
            signed <==> it.index() > 0 && text@[0] == '+',
            digits + (if signed { 1int } else { 0int }) == it.index(),
            all_digits(text@.subrange(it.index() - digits, it.index() as int)),
            value == digits_value(text@.subrange(it.index() - digits, it.index() as int)),
    {
        let ghost at = it.index() as int;
        let ghost from = at - digits;
        if c == '+' && !any && !signed {
            signed = true;
            assert(text@.subrange(1, 1) =~= text@.subrange(0, 0));
        } else {
            if c < '0' || c > '9' {
                proof {
                    let rest = unsigned_part(text@);
                    assert(rest[at - from] == c);
                }
                return None;
            }
            let digit: usize = (c as u32 - '0' as u32) as usize;
            proof {
                let rest = unsigned_part(text@);
                let upto = text@.subrange(from, at + 1);
                assert(upto.drop_last() =~= text@.subrange(from, at));
                assert(upto.last() == c);
                assert(digits_value(upto) == value * 10 + digit);
                assert(all_digits(upto)) by {
                    assert forall|i: int| 0 <= i < upto.len() implies is_digit(
                        #[trigger] upto[i],
                    ) by {
                        if i < upto.len() - 1 {
                            assert(upto[i] == text@.subrange(from, at)[i]);
                        }
                    }
                }
                if all_digits(rest) {
                    lemma_digits_value_grows(rest, at + 1 - from);
                    assert(rest.subrange(0, at + 1 - from) =~= upto);
                }
            }
            if value > (usize::MAX - digit) / 10 {
                return None;
            }
            value = value * 10 + digit;
            any = true;
            proof {
                digits = digits + 1;
            }
        }
    }
    proof {
        let rest = unsigned_part(text@);
        assert(rest =~= text@.subrange(text@.len() - digits, text@.len() as int));
    }
    if any {
        Some(value)
    } else {
        None
    }
}

} // verus!
