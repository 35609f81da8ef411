//! The questions `init` asks: whether to overwrite an existing project and
//! which template to start from. The application asks and writes the files.

use vstd::prelude::*;
use crate::text::{chars_of, eq_str, lowercase, to_lowercase, trim, trim_spec};

verus! {

/// An answer agrees when, trimmed and lowercased, it is `y` or `yes`.
pub open spec fn agrees_spec(answer: Seq<char>) -> bool {
    lowercase(trim_spec(answer)) == "y"@ || lowercase(trim_spec(answer)) == "yes"@
}

/// Whether the answer to "re-initialize?" agrees.
pub fn confirms_reinit(answer: &str) -> (r: bool)
    ensures
        r == agrees_spec(answer@),
{
    let a = chars_of(answer);
    let t = trim(a.as_slice());
    let l = to_lowercase(t.as_slice());
    eq_str(l.as_slice(), "y") || eq_str(l.as_slice(), "yes")
}

/// The `.nc` template is taken unless the trimmed answer picks the basic
/// one: `1`, `basic` or `Basic`.
pub open spec fn picks_nc_spec(answer: Seq<char>) -> bool {
    !(trim_spec(answer) == "1"@ || trim_spec(answer) == "basic"@ || trim_spec(answer) == "Basic"@)
}

/// Whether the answer to the template question selects the `.nc` template.
pub fn chooses_nc_template(answer: &str) -> (r: bool)
    ensures
        r == picks_nc_spec(answer@),
{
    let a = chars_of(answer);
    let t = trim(a.as_slice());
    !(eq_str(t.as_slice(), "1") || eq_str(t.as_slice(), "basic") || eq_str(t.as_slice(), "Basic"))
}

} // verus!
