//! The update check: which version a reply announces, and what that means
//! for the running version. The application fetches the reply.

use vstd::prelude::*;
use crate::nc_render::{as_str, as_str_exec, get, get_exec, json_model_spec, parse_json};
use crate::text::{chars_of, string_from, trim, trim_spec};

verus! {

/// The version a reply announces: the `version` text of a JSON object, or
/// else the whole reply without surrounding whitespace.
pub open spec fn remote_version_spec(body: Seq<char>) -> Seq<char> {
    match json_model_spec(body) {
        Some(j) => match as_str(get(j, "version"@)) {
            Some(v) => v,
            None => trim_spec(body),
        },
        None => trim_spec(body),
    }
}

/// Reads the version out of an update server's reply.
pub fn remote_version(body: &str) -> (r: String)
    ensures
        r@ == remote_version_spec(body@),
{
    match parse_json(body) {
        Some(j) => {
            let v = get_exec(&j, "version");
            match as_str_exec(v) {
                Some(s) => {
                    return s.clone();
                },
                None => {},
            }
        },
        None => {},
    }
    let b = chars_of(body);
    let t = trim(b.as_slice());
    string_from(t.as_slice())
}

/// What the update check found.
#[derive(Debug, Clone, Copy, PartialEq, Eq, Structural)]
pub enum UpdateCheck {
    /// The reply named no version.
    NoVersion,
    /// The reply names another version than the running one.
    Available,
    /// The reply names the running version.
    Current,
}

/// Compares the announced version with the running one.
pub fn update_status(remote: &str, current: &str) -> (r: UpdateCheck)
    ensures
        r == (if remote@.len() == 0 {
            UpdateCheck::NoVersion
        } else if remote@ != current@ {
            UpdateCheck::Available
        } else {
            UpdateCheck::Current
        }),
{
    let a = chars_of(remote);
    if a.len() == 0 {
        return UpdateCheck::NoVersion;
    }
    let b = chars_of(current);
    if crate::text::seq_eq(a.as_slice(), b.as_slice()) {
        UpdateCheck::Current
    } else {
        UpdateCheck::Available
    }
}

} // verus!
