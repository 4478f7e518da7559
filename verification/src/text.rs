//! Text: numbers in decimal, in both directions, and lines without the
//! white space around them.

use crate::number::fits;
use vstd::prelude::*;
use vstd::string::*;

verus! {

/// The text of a digit.
pub open spec fn digit(d: int) -> Seq<char> {
    if d == 0 {
        "0"@
    } else if d == 1 {
        "1"@
    } else if d == 2 {
        "2"@
    } else if d == 3 {
        "3"@
    } else if d == 4 {
        "4"@
    } else if d == 5 {
        "5"@
    } else if d == 6 {
        "6"@
    } else if d == 7 {
        "7"@
    } else if d == 8 {
        "8"@
    } else {
        "9"@
    }
}

/// The decimal text of a number: its digits, the most significant first,
/// without leading zeros.
pub open spec fn digits(n: nat) -> Seq<char>
    decreases n,
{
    if n < 10 {
        digit(n as int)
    } else {
        digits(n / 10) + digit((n % 10) as int)
    }
}

/// The text of a digit.
fn digit_text(d: usize) -> (r: &'static str)
    requires
        d < 10,
    ensures
        r@ == digit(d as int),
{
    if d == 0 {
        "0"
    } else if d == 1 {
        "1"
    } else if d == 2 {
        "2"
    } else if d == 3 {
        "3"
    } else if d == 4 {
        "4"
    } else if d == 5 {
        "5"
    } else if d == 6 {
        "6"
    } else if d == 7 {
        "7"
    } else if d == 8 {
        "8"
    } else {
        "9"
    }
}

/// The decimal text of a number.
pub fn decimal(n: usize) -> (r: String)
    ensures
        r@ == digits(n as nat),
    decreases n,
{
    if n < 10 {
        digit_text(n).to_owned()
    } else {
        let mut text = decimal(n / 10);
        text.append(digit_text(n % 10));
        text
    }
}

/// The value of a decimal digit; none for any other character.
pub open spec fn digit_of(c: char) -> Option<int> {
    let code = c as u32;
    if 0x30 <= code <= 0x39 {
        Some(code - 0x30)
    } else {
        None
    }
}

/// The number that the first `count` characters of a text stand for in
/// decimal; none where one of them is not a digit.
pub open spec fn natural(text: Seq<char>, count: int) -> Option<int>
    decreases count,
{
    if count <= 0 || count > text.len() {
        Some(0)
    } else {
        match (natural(text, count - 1), digit_of(text[count - 1])) {
            (Some(before), Some(d)) => Some(10 * before + d),
            _ => None,
        }
    }
}

/// The integer that a text stands for: an optional sign, then one decimal
/// digit or more. There is none where the text is of another form, and
/// where the number does not fit the machine's integer.
pub open spec fn integer_of(text: Seq<char>) -> Option<isize> {
    let signed = text.len() > 0 && (text[0] == '-' || text[0] == '+');
    let digits = if signed {
        text.subrange(1, text.len() as int)
    } else {
        text
    };
    if digits.len() == 0 {
        None
    } else {
        match natural(digits, digits.len() as int) {
            Some(size) => {
                let value = if text[0] == '-' {
                    -size
                } else {
                    size
                };
                if fits(value) {
                    Some(value as isize)
                } else {
                    None
                }
            },
            None => None,
        }
    }
}

/// The value of a decimal digit.
pub fn digit_value(c: char) -> (r: Option<isize>)
    ensures
        match r {
            Some(d) => digit_of(c) == Some(d as int) && 0 <= d <= 9,
            None => digit_of(c) is None,
        },
{
    let code: u32 = c as u32;
    if 0x30 <= code && code <= 0x39 {
        Some((code - 0x30) as isize)
    } else {
        None
    }
}

/// The integer that a text stands for.
pub fn integer(text: &str) -> (r: Option<isize>)
    ensures
        r == integer_of(text@),
{
    let length = text.unicode_len();
    if length == 0 {
        return None;
    }
    let first = text.get_char(0);
    let negative = first == '-';
    let start: usize = if first == '-' || first == '+' {
        1
    } else {
        0
    };
    if start == length {
        return None;
    }
    let ghost digits = if start == 1 {
        text@.subrange(1, text@.len() as int)
    } else {
        text@
    };
    // the number is gathered with its sign, so that the least integer is reached
    let mut value: isize = 0;
    let mut i: usize = start;
    while i < length
        invariant
            length == text@.len(),
            length > 0,
            start <= i <= length,
            start < length,
            start <= 1,
            (start == 1) == (text@[0] == '-' || text@[0] == '+'),
            negative == (text@[0] == '-'),
            digits == (if start == 1 {
                text@.subrange(1, text@.len() as int)
            } else {
                text@
            }),
            natural(digits, i - start) == Some(
                if negative {
                    -(value as int)
                } else {
                    value as int
                },
            ),
            negative ==> value <= 0,
            !negative ==> value >= 0,
        decreases length - i,
    {
        let d = match digit_value(text.get_char(i)) {
            Some(d) => d,
            None => {
                proof {
                    assert(digits[i - start] == text@[i as int]);
                    lemma_natural_stops(digits, i - start + 1, digits.len() as int);
                }
                return None;
            },
        };
        assert(digits[i - start] == text@[i as int]);
        let next = match value.checked_mul(10) {
            Some(tenfold) => if negative {
                tenfold.checked_sub(d)
            } else {
                tenfold.checked_add(d)
            },
            None => None,
        };
        match next {
            Some(next) => {
                value = next;
            },
            None => {
                proof {
                    let size = if negative {
                        -(value as int)
                    } else {
                        value as int
                    };
                    assert(natural(digits, i - start + 1) == Some(10 * size + d));
                    lemma_natural_grows(digits, i - start + 1, digits.len() as int);
                }
                return None;
            },
        }
        i += 1;
    }
    Some(value)
}

/// Once a character is not a digit, no longer part of the text stands for
/// a number.
pub proof fn lemma_natural_stops(text: Seq<char>, count: int, more: int)
    requires
        0 < count <= more <= text.len(),
        natural(text, count) is None,
    ensures
        natural(text, more) is None,
    decreases more - count,
{
    if count < more {
        lemma_natural_stops(text, count, more - 1);
    }
}

/// The number that a longer part of a text stands for is no smaller.
pub proof fn lemma_natural_grows(text: Seq<char>, count: int, more: int)
    requires
        0 <= count <= more <= text.len(),
    ensures
        natural(text, count) matches Some(low) ==> low >= 0,
        (natural(text, count), natural(text, more)) matches (Some(low), Some(high)) ==> low
            <= high,
    decreases more,
{
    if count < more {
        lemma_natural_grows(text, count, more - 1);
        lemma_natural_grows(text, more - 1, more - 1);
    } else if count > 0 {
        lemma_natural_grows(text, count - 1, count - 1);
    }
}

/// Whether a character is white space.
pub open spec fn whitespace(c: char) -> bool {
    let code = c as u32;
    ||| 0x09 <= code <= 0x0d
    ||| code == 0x20
    ||| code == 0x85
    ||| code == 0xa0
    ||| code == 0x1680
    ||| 0x2000 <= code <= 0x200a
    ||| code == 0x2028
    ||| code == 0x2029
    ||| code == 0x202f
    ||| code == 0x205f
    ||| code == 0x3000
}

/// The position of the first character from `from` on that is not white
/// space; the length of the text where there is none.
pub open spec fn leading(text: Seq<char>, from: int) -> int
    decreases text.len() - from,
{
    if from < 0 || from >= text.len() {
        text.len() as int
    } else if whitespace(text[from]) {
        leading(text, from + 1)
    } else {
        from
    }
}

/// The position behind the last character before `to` that is not white
/// space; zero where there is none.
pub open spec fn trailing(text: Seq<char>, to: int) -> int
    decreases to,
{
    if to <= 0 || to > text.len() {
        0
    } else if whitespace(text[to - 1]) {
        trailing(text, to - 1)
    } else {
        to
    }
}

/// The text without the white space at its start and at its end.
pub open spec fn trimmed(text: Seq<char>) -> Seq<char> {
    let start = leading(text, 0);
    let end = trailing(text, text.len() as int);
    if start < end {
        text.subrange(start, end)
    } else {
        Seq::empty()
    }
}

/// Whether a character is white space.
pub fn is_whitespace(c: char) -> (r: bool)
    ensures
        r == whitespace(c),
{
    let code: u32 = c as u32;
    (0x09 <= code && code <= 0x0d) || code == 0x20 || code == 0x85 || code == 0xa0 || code
        == 0x1680 || (0x2000 <= code && code <= 0x200a) || code == 0x2028 || code == 0x2029
        || code == 0x202f || code == 0x205f || code == 0x3000
}

/// The text without the white space at its start and at its end.
pub fn trim(line: &str) -> (r: String)
    ensures
        r@ == trimmed(line@),
{
    let length = line.unicode_len();
    let mut start: usize = 0;
    while start < length && is_whitespace(line.get_char(start))
        invariant
            length == line@.len(),
            start <= length,
            leading(line@, 0) == leading(line@, start as int),
        decreases length - start,
    {
        start += 1;
    }
    let mut end: usize = length;
    while end > start && is_whitespace(line.get_char(end - 1))
        invariant
            length == line@.len(),
            start <= end <= length,
            start == leading(line@, 0),
            start < length ==> !whitespace(line@[start as int]),
            start < length ==> start < end,
            trailing(line@, length as int) == trailing(line@, end as int),
        decreases end,
    {
        end -= 1;
    }
    proof {
        lemma_trailing_bound(line@, end as int);
        if start == end {
            assert(line@.subrange(start as int, end as int) =~= Seq::empty());
        }
    }
    line.substring_char(start, end).to_owned()
}

/// The end of the trimmed text is not behind the end of the text.
proof fn lemma_trailing_bound(text: Seq<char>, to: int)
    ensures
        0 <= trailing(text, to),
        to >= 0 ==> trailing(text, to) <= to,
    decreases to,
{
    if 0 < to <= text.len() && whitespace(text[to - 1]) {
        lemma_trailing_bound(text, to - 1);
    }
}

} // verus!
