//! What this crate takes for granted of the standard library, where `vstd`
//! says nothing.

use vstd::prelude::*;

verus! {

/// `String::push` appends the character to the end of the string and leaves
/// the rest of it as it was.
pub assume_specification[ String::push ](s: &mut String, c: char)
    ensures
        final(s)@ == old(s)@.push(c),
;

} // verus!
