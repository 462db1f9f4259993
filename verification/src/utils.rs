//! The hidden-entry rule: a filesystem entry is hidden when its name starts
//! with a dot.

use vstd::prelude::*;
use vstd::string::StrSliceExecFns;

verus! {

/// A name marks a hidden entry when its first character is a dot.
pub open spec fn spec_is_hidden(name: Seq<char>) -> bool {
    name.len() > 0 && name[0] == '.'
}

/// Decides whether an entry name denotes a hidden entry.
pub fn is_hidden(name: &str) -> (r: bool)
    ensures
        r == spec_is_hidden(name@),
{
    let n = name.unicode_len();
    if n == 0 {
        false
    } else {
        name.get_char(0) == '.'
    }
}

} // verus!
