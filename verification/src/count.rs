//! Counters as the listing prints them: decimal numbers with commas between
//! groups of digits and white space around them, such as ` 1,234 `.

use vstd::prelude::*;
use crate::text::code_of;

verus! {

/// White space as Unicode defines it (the property `White_Space`).
pub open spec fn is_space(c: char) -> bool {
    let n = c as int;
    ||| 0x09 <= n <= 0x0d
    ||| n == 0x20
    ||| n == 0x85
    ||| n == 0xa0
    ||| n == 0x1680
    ||| 0x2000 <= n <= 0x200a
    ||| n == 0x2028
    ||| n == 0x2029
    ||| n == 0x202f
    ||| n == 0x205f
    ||| n == 0x3000
}

/// One of the ten decimal digits of ASCII.
pub open spec fn is_digit(c: char) -> bool {
    0x30 <= c as int <= 0x39
}

/// The number that a digit stands for; zero for any other character.
pub open spec fn digit_value(c: char) -> nat {
    if is_digit(c) {
        (c as int - 0x30) as nat
    } else {
        0
    }
}

/// `s` without the white space at its start.
pub open spec fn skip_leading(s: Seq<char>) -> Seq<char>
    decreases s.len(),
{
    if s.len() > 0 && is_space(s[0]) {
        skip_leading(s.drop_first())
    } else {
        s
    }
}

/// `s` without the white space at its end.
pub open spec fn drop_trailing(s: Seq<char>) -> Seq<char>
    decreases s.len(),
{
    if s.len() > 0 && is_space(s.last()) {
        drop_trailing(s.drop_last())
    } else {
        s
    }
}

/// `s` without the white space at either end.
pub open spec fn trimmed(s: Seq<char>) -> Seq<char> {
    drop_trailing(skip_leading(s))
}

/// `s` without its commas.
pub open spec fn without_commas(s: Seq<char>) -> Seq<char>
    decreases s.len(),
{
    if s.len() == 0 {
        s
    } else if s.last() == ',' {
        without_commas(s.drop_last())
    } else {
        without_commas(s.drop_last()).push(s.last())
    }
}

/// Every character of `s` is a digit.
pub open spec fn all_digits(s: Seq<char>) -> bool {
    forall|i: int| 0 <= i < s.len() ==> is_digit(#[trigger] s[i])
}

/// The number that the digits of `s` write in base ten.
pub open spec fn decimal(s: Seq<char>) -> nat
    decreases s.len(),
{
    if s.len() == 0 {
        0
    } else {
        decimal(s.drop_last()) * 10 + digit_value(s.last())
    }
}

/// `s` after a plus sign at its start, if it has one.
pub open spec fn unsigned(s: Seq<char>) -> Seq<char> {
    if s.len() > 0 && s[0] == '+' {
        s.drop_first()
    } else {
        s
    }
}

/// The counter that `text` shows: after white space at both ends and all
/// commas are taken away, an optional plus sign and at least one digit must
/// be left, and the number must fit the machine word.
pub open spec fn count_of(text: Seq<char>) -> Option<usize> {
    let digits = unsigned(without_commas(trimmed(text)));
    if digits.len() > 0 && all_digits(digits) && decimal(digits) <= usize::MAX {
        Some(decimal(digits) as usize)
    } else {
        None
    }
}

/// A longer row of digits writes no smaller number.
pub proof fn lemma_decimal_grows(s: Seq<char>, n: int)
    requires
        0 <= n <= s.len(),
    ensures
        decimal(s.take(n)) <= decimal(s),
    decreases s.len() - n,
{
    if n < s.len() {
        lemma_decimal_grows(s, n + 1);
        assert(s.take(n + 1).drop_last() =~= s.take(n));
    } else {
        assert(s.take(n) =~= s);
    }
}

/// Whether `c` is white space.
pub fn is_whitespace(c: char) -> (res: bool)
    ensures
        res == is_space(c),
{
    let n: u32 = code_of(c);
    (0x09 <= n && n <= 0x0d) || n == 0x20 || n == 0x85 || n == 0xa0 || n == 0x1680 || (0x2000 <= n
        && n <= 0x200a) || n == 0x2028 || n == 0x2029 || n == 0x202f || n == 0x205f || n == 0x3000
}

/// The characters of `text`.
fn chars_of(text: &str) -> (res: Vec<char>)
    ensures
        res@ == text@,
{
    let mut chars: Vec<char> = Vec::new();
    for c in it: text.chars()
        invariant
            chars@ == it.seq().take(it.index() as int),
            it.seq() == text@,
    {
        chars.push(c);
    }
    chars
}

/// The characters of `text` without white space at either end and without
/// commas.
fn significant(text: &str) -> (res: Vec<char>)
    ensures
        res@ == without_commas(trimmed(text@)),
{
    let chars = chars_of(text);
    let ghost s = chars@;
    let mut start: usize = 0;
    assert(s.subrange(0, s.len() as int) =~= s);
    while start < chars.len() && is_whitespace(chars[start])
        invariant
            s == chars@,
            start <= s.len(),
            skip_leading(s) == skip_leading(s.subrange(start as int, s.len() as int)),
        decreases s.len() - start,
    {
        assert(s.subrange(start as int, s.len() as int).drop_first() =~= s.subrange(
            start + 1,
            s.len() as int,
        ));
        start += 1;
    }
    let ghost tail = s.subrange(start as int, s.len() as int);
    let mut end: usize = chars.len();
    while end > start && is_whitespace(chars[end - 1])
        invariant
            s == chars@,
            start <= end <= s.len(),
            drop_trailing(tail) == drop_trailing(s.subrange(start as int, end as int)),
        decreases end - start,
    {
        assert(s.subrange(start as int, end as int).drop_last() =~= s.subrange(
            start as int,
            end - 1,
        ));
        end -= 1;
    }
    let mut kept: Vec<char> = Vec::new();
    let mut i: usize = start;
    while i < end
        invariant
            s == chars@,
            start <= i <= end <= s.len(),
            kept@ == without_commas(s.subrange(start as int, i as int)),
        decreases end - i,
    {
        assert(s.subrange(start as int, i + 1).drop_last() =~= s.subrange(start as int, i as int));
        let c = chars[i];
        if c != ',' {
            kept.push(c);
        }
        i += 1;
    }
    kept
}

/// Reads the counter that `text` shows.
pub fn parse_count(text: &str) -> (res: Option<usize>)
    ensures
        res == count_of(text@),
{
    let kept = significant(text);
    let from: usize = if kept.len() > 0 && kept[0] == '+' {
        1
    } else {
        0
    };
    let ghost digits = unsigned(kept@);
    if from == kept.len() {
        return None;
    }
    let mut total: usize = 0;
    let mut i: usize = from;
    while i < kept.len()
        invariant
            from <= i <= kept.len(),
            kept@ == without_commas(trimmed(text@)),
            digits == unsigned(kept@),
            digits == kept@.subrange(from as int, kept@.len() as int),
            all_digits(digits.take(i - from)),
            total == decimal(digits.take(i - from)),
        decreases kept.len() - i,
    {
        let n: u32 = code_of(kept[i]);
        if n < 0x30 || n > 0x39 {
            assert(!is_digit(digits[i - from]));
            return None;
        }
        let digit: usize = (n - 0x30) as usize;
        proof {
            assert(digits.take(i - from + 1).drop_last() =~= digits.take(i - from));
            lemma_decimal_grows(digits, i - from + 1);
        }
        total = match total.checked_mul(10) {
            Some(tens) => match tens.checked_add(digit) {
                Some(sum) => sum,
                None => return None,
            },
            None => return None,
        };
        i += 1;
    }
    assert(digits.take(i - from) =~= digits);
    Some(total)
}

} // verus!
