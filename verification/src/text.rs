//! Characters and strings: what the rest of the crate needs of them.

use vstd::prelude::*;

verus! {

/// `String::push`: appends `c` to `text`.
#[verifier::external_body]
pub(crate) fn push_char(text: &mut String, c: char)
    ensures
        final(text)@ == old(text)@.push(c),
{
    text.push(c)
}

/// The code point of `c`.
pub fn code_of(c: char) -> (res: u32)
    ensures
        res as int == c as int,
{
    c as u32
}

} // verus!
