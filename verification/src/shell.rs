//! Changing the login shell to fish: the confirmation rule.

use vstd::prelude::*;
use crate::text::{chars_of, chars_eq, trim, trim_chars};

verus! {

/// An answer that confirms: `y`, `Y`, `yes`, `YES` or `Yes`, trimmed.
pub open spec fn is_yes(answer: Seq<char>) -> bool {
    let t = trim(answer);
    t == "y"@ || t == "Y"@ || t == "yes"@ || t == "YES"@ || t == "Yes"@
}

/// Whether an answer to the confirmation prompt says yes.
pub fn confirmed(answer: &str) -> (r: bool)
    ensures
        r == is_yes(answer@),
{
    let t = trim_chars(chars_of(answer).as_slice());
    let s = t.as_slice();
    chars_eq(s, chars_of("y").as_slice()) || chars_eq(s, chars_of("Y").as_slice()) || chars_eq(
        s,
        chars_of("yes").as_slice(),
    ) || chars_eq(s, chars_of("YES").as_slice()) || chars_eq(s, chars_of("Yes").as_slice())
}

} // verus!
