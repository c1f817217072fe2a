//! Numbers written in base ten.

use vstd::prelude::*;
use vstd::std_specs::iter::IteratorSpec;
use vstd::string::{StrSliceExecFns, StringExecFns};

verus! {

broadcast use vstd::string::group_string_axioms;

/// Whether a character is one of the ten ASCII digits.
pub open spec fn is_digit(c: char) -> bool {
    '0' <= c && c <= '9'
}

/// The number a digit stands for.
pub open spec fn digit_value(c: char) -> int {
    (c as u32) - 48
}

/// Whether a text holds digits only.
pub open spec fn all_digits(text: Seq<char>) -> bool {
    forall|i: int| 0 <= i < text.len() ==> is_digit(#[trigger] text[i])
}

/// The number that a run of digits writes in base ten; leading zeros count
/// for nothing, and the empty run writes zero.
pub open spec fn decimal_value(digits: Seq<char>) -> int
    decreases digits.len(),
{
    if digits.len() == 0 {
        0
    } else {
        10 * decimal_value(digits.drop_last()) + digit_value(digits.last())
    }
}

/// The number a text writes as a 32-bit integer: an optional `+` or `-`,
/// then one digit or more and nothing else, the whole within the range of
/// the type. Any other text writes no number.
pub open spec fn parsed_i32(text: Seq<char>) -> Option<i32> {
    let negative = text.len() > 0 && text[0] == '-';
    let signed = text.len() > 0 && (text[0] == '-' || text[0] == '+');
    let digits = if signed {
        text.drop_first()
    } else {
        text
    };
    let value = if negative {
        -decimal_value(digits)
    } else {
        decimal_value(digits)
    };
    if digits.len() > 0 && all_digits(digits) && i32::MIN <= value <= i32::MAX {
        Some(value as i32)
    } else {
        None
    }
}

/// A run of digits is worth at least what any shorter start of it is worth.
proof fn lemma_decimal_value_grows(digits: Seq<char>)
    requires
        digits.len() > 0,
        all_digits(digits),
    ensures
        0 <= decimal_value(digits.drop_last()) <= decimal_value(digits),
    decreases digits.len(),
{
    let front = digits.drop_last();
    assert(is_digit(digits[digits.len() - 1]));
    if front.len() > 0 {
        assert forall|i: int| 0 <= i < front.len() implies is_digit(#[trigger] front[i]) by {
            assert(front[i] == digits[i]);
        }
        lemma_decimal_value_grows(front);
    }
}

/// Reads a text as a 32-bit integer in base ten.
pub fn parse_i32(text: &str) -> (out: Option<i32>)
    ensures
        out == parsed_i32(text@),
{
    if text.is_empty() {
        return None;
    }
    let first = text.get_char(0);
    let negative = first == '-';
    let signed = negative || first == '+';
    let mut rest = text.chars();
    if signed {
        let sign = rest.next();
    }
    let ghost digits = if signed {
        text@.drop_first()
    } else {
        text@
    };
    assert(digits.skip(0) == digits);
    let mut total: i64 = 0;
    let mut too_large = false;
    let mut any = false;
    let ghost mut seen: int = 0;
    loop
        invariant_except_break
            rest.remaining() == digits.skip(seen),
        invariant
            text@.len() > 0,
            negative == (text@[0] == '-'),
            signed == (text@[0] == '-' || text@[0] == '+'),
            digits == if signed {
                text@.drop_first()
            } else {
                text@
            },
            0 <= seen <= digits.len(),
            any == (seen > 0),
            all_digits(digits.take(seen)),
            !too_large ==> total == decimal_value(digits.take(seen)) && 0 <= total <= 2147483648,
            too_large ==> decimal_value(digits.take(seen)) > 2147483648,
        ensures
            seen == digits.len(),
        decreases digits.len() - seen,
    {
        match rest.next() {
            None => {
                assert(digits.skip(seen).len() == 0);
                break ;
            },
            Some(c) => {
                assert(c == digits[seen]);
                if !('0' <= c && c <= '9') {
                    assert(!is_digit(digits[seen]));
                    return None;
                }
                let digit: i64 = (c as u32 - 48) as i64;
                proof {
                    let longer = digits.take(seen + 1);
                    assert(longer.drop_last() == digits.take(seen));
                    assert(longer.last() == c);
                    assert forall|i: int| 0 <= i < longer.len() implies is_digit(
                        #[trigger] longer[i],
                    ) by {
                        if i < seen {
                            assert(digits.take(seen)[i] == longer[i]);
                        }
                    }
                    lemma_decimal_value_grows(longer);
                    assert(digits.skip(seen).drop_first() == digits.skip(seen + 1));
                }
                if !too_large {
                    let next: i64 = total * 10 + digit;
                    if next > 2147483648 {
                        too_large = true;
                    } else {
                        total = next;
                    }
                }
                any = true;
                proof {
                    seen = seen + 1;
                }
            },
        }
    }
    assert(digits.take(seen) == digits);
    if !any || too_large {
        return None;
    }
    if negative {
        Some((-total) as i32)
    } else if total > 2147483647 {
        None
    } else {
        Some(total as i32)
    }
}

/// The digit that stands for a number under ten.
pub open spec fn digit_char(d: nat) -> char {
    ((48 + d) as u8) as char
}

/// A number written in base ten: no sign, and no zero in front but for
/// zero itself.
pub open spec fn decimal_text(n: nat) -> Seq<char>
    decreases n,
{
    if n < 10 {
        seq![digit_char(n)]
    } else {
        decimal_text(n / 10).push(digit_char(n % 10))
    }
}

/// What is written is read back: the text of a number holds digits only,
/// at least one, and is worth the number; within the range of the type it
/// parses to it.
pub proof fn lemma_decimal_text_reads_back(n: nat)
    ensures
        decimal_text(n).len() > 0,
        all_digits(decimal_text(n)),
        decimal_value(decimal_text(n)) == n,
        n <= i32::MAX ==> parsed_i32(decimal_text(n)) == Some(n as i32),
    decreases n,
{
    let text = decimal_text(n);
    if n < 10 {
        assert(text.drop_last() =~= Seq::<char>::empty());
        assert(decimal_value(text.drop_last()) == 0);
        assert(text.last() == digit_char(n));
    } else {
        lemma_decimal_text_reads_back(n / 10);
        let front = decimal_text(n / 10);
        assert(text.drop_last() =~= front);
        assert(text.last() == digit_char(n % 10));
        assert forall|i: int| 0 <= i < text.len() implies is_digit(#[trigger] text[i]) by {
            if i < front.len() {
                assert(text[i] == front[i]);
            }
        }
    }
    assert(is_digit(text[0]));
}

/// The one-letter text of a digit.
fn digit_text(d: usize) -> (out: &'static str)
    requires
        d < 10,
    ensures
        out@ == seq![digit_char(d as nat)],
{
    proof {
        reveal_strlit("0");
        reveal_strlit("1");
        reveal_strlit("2");
        reveal_strlit("3");
        reveal_strlit("4");
        reveal_strlit("5");
        reveal_strlit("6");
        reveal_strlit("7");
        reveal_strlit("8");
        reveal_strlit("9");
    }
    let out = match d {
        0 => "0",
        1 => "1",
        2 => "2",
        3 => "3",
        4 => "4",
        5 => "5",
        6 => "6",
        7 => "7",
        8 => "8",
        _ => "9",
    };
    assert(out@ =~= seq![digit_char(d as nat)]);
    out
}

/// Writes a number in base ten.
pub fn decimal_string(n: usize) -> (out: String)
    ensures
        out@ == decimal_text(n as nat),
    decreases n,
{
    let last = digit_text(n % 10);
    if n < 10 {
        String::from_str(last)
    } else {
        let out = decimal_string(n / 10).concat(last);
        assert(out@ =~= decimal_text(n as nat));
        out
    }
}

} // verus!
