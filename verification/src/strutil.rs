//! Small trusted bridge to `std`'s string building.

use vstd::prelude::*;

verus! {

/// Relies on std's `String::push`: appends exactly one character at the end
/// of the string.
#[verifier::external_body]
pub(crate) fn push_char(s: &mut String, c: char)
    ensures
        final(s)@ == old(s)@.push(c),
{
    s.push(c);
}

} // verus!
