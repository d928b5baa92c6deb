//! Obscured rendering of secret values for diagnostic output.

use vstd::prelude::*;
use vstd::string::StrSliceExecFns;
use vstd::string::StringExecFns;

verus! {

/// What the obscured rendering of a secret value is: the empty value is
/// shown as a fixed placeholder, any other value as at most its first four
/// characters followed by an ellipsis.
pub open spec fn spec_format_token_value(v: Seq<char>) -> Seq<char> {
    if v.len() == 0 {
        "(empty)"@
    } else if v.len() <= 4 {
        v + "..."@
    } else {
        v.subrange(0, 4) + "..."@
    }
}

/// Format a secret value for diagnostic output, obscuring all but at most
/// its first four characters.
pub fn format_token_value(value: &str) -> (r: String)
    ensures
        r@ == spec_format_token_value(value@),
{
    let n = value.unicode_len();
    if n == 0 {
        return "(empty)".to_owned();
    }
    let k = if n <= 4 {
        n
    } else {
        4
    };
    let prefix = value.substring_char(0, k);
    proof {
        if n <= 4 {
            assert(value@.subrange(0, n as int) =~= value@);
        }
    }
    let mut r = prefix.to_owned();
    r.append("...");
    r
}

} // verus!
