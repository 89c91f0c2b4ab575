//! The lines in which the records are shown to a reader.

use vstd::prelude::*;
use crate::count::{decimal, digit_value, is_digit};
use crate::extractor::{Dependent, Record};
use crate::text::push_char;

verus! {

/// The character that writes the digit `d`.
pub open spec fn digit_char(d: nat) -> char {
    if d == 0 {
        '0'
    } else if d == 1 {
        '1'
    } else if d == 2 {
        '2'
    } else if d == 3 {
        '3'
    } else if d == 4 {
        '4'
    } else if d == 5 {
        '5'
    } else if d == 6 {
        '6'
    } else if d == 7 {
        '7'
    } else if d == 8 {
        '8'
    } else {
        '9'
    }
}

/// The digits that write `n` in base ten, without leading zeros.
pub open spec fn digits_of(n: nat) -> Seq<char>
    decreases n,
{
    if n < 10 {
        seq![digit_char(n)]
    } else {
        digits_of(n / 10).push(digit_char(n % 10))
    }
}

/// The line that shows one record.
pub open spec fn row_line_of(row: Record) -> Seq<char> {
    "- "@ + row.owner + "/"@ + row.repo + " ("@ + digits_of(row.stars) + " stars)"@
}

/// The line that stands above the records: how many of them are shown, of
/// which repository they are dependents, and how many are known.
pub open spec fn heading_of(shown: nat, repo: Seq<char>, known: nat) -> Seq<char> {
    "Top "@ + digits_of(shown) + " dependents of `"@ + repo + "` (out of "@ + digits_of(known)
        + " scraped):"@
}

/// What is written can be read again: the digits of a number are digits,
/// and they write that number.
pub proof fn lemma_digits_round_trip(n: nat)
    ensures
        digits_of(n).len() > 0,
        forall|i: int| 0 <= i < digits_of(n).len() ==> is_digit(#[trigger] digits_of(n)[i]),
        decimal(digits_of(n)) == n,
    decreases n,
{
    if n < 10 {
        assert(digits_of(n).drop_last() =~= Seq::<char>::empty());
        assert(decimal(Seq::<char>::empty()) == 0);
    } else {
        lemma_digits_round_trip(n / 10);
        assert(digits_of(n).drop_last() =~= digits_of(n / 10));
    }
}

/// The character that writes the digit `d`.
fn digit(d: usize) -> (res: char)
    requires
        d < 10,
    ensures
        res == digit_char(d as nat),
{
    if d == 0 {
        '0'
    } else if d == 1 {
        '1'
    } else if d == 2 {
        '2'
    } else if d == 3 {
        '3'
    } else if d == 4 {
        '4'
    } else if d == 5 {
        '5'
    } else if d == 6 {
        '6'
    } else if d == 7 {
        '7'
    } else if d == 8 {
        '8'
    } else {
        '9'
    }
}

/// Appends the digits of `n` to `text`.
pub fn append_number(text: &mut String, n: usize)
    ensures
        final(text)@ == old(text)@ + digits_of(n as nat),
{
    // The digits come out lowest first.
    let mut low_first: Vec<char> = Vec::new();
    low_first.push(digit(n % 10));
    let mut rest: usize = n / 10;
    while rest > 0
        invariant
            low_first@.len() > 0,
            digits_of(n as nat) == if rest > 0 {
                digits_of(rest as nat) + low_first@.reverse()
            } else {
                low_first@.reverse()
            },
        decreases rest,
    {
        low_first.push(digit(rest % 10));
        rest = rest / 10;
    }
    let ghost digits = low_first@.reverse();
    let mut i: usize = low_first.len();
    while i > 0
        invariant
            i <= low_first@.len(),
            digits == low_first@.reverse(),
            text@ == old(text)@ + digits.take(low_first@.len() - i),
        decreases i,
    {
        i -= 1;
        push_char(text, low_first[i]);
    }
}

/// The line that shows `row`.
pub fn row_line(row: &Dependent) -> (res: String)
    ensures
        res@ == row_line_of(row@),
{
    let mut text = String::from_str("- ");
    text.append(row.owner.as_str());
    text.append("/");
    text.append(row.repo.as_str());
    text.append(" (");
    append_number(&mut text, row.stars);
    text.append(" stars)");
    text
}

/// The line that stands above `shown` of the `known` dependents of `repo`.
pub fn heading(shown: usize, repo: &str, known: usize) -> (res: String)
    ensures
        res@ == heading_of(shown as nat, repo@, known as nat),
{
    let mut text = String::from_str("Top ");
    append_number(&mut text, shown);
    text.append(" dependents of `");
    text.append(repo);
    text.append("` (out of ");
    append_number(&mut text, known);
    text.append(" scraped):");
    text
}

} // verus!
