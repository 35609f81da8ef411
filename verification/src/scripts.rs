//! The `run` command: finding a named script of the project and the command
//! line that runs it. The application hands the line to the shell.

use vstd::prelude::*;
use crate::config::string_views;
use crate::text::{chars_of, decimal, decimal_spec, join, join_spec, push_all, push_str, string_from, views};

verus! {

/// The names of the scripts, in order.
pub open spec fn script_names(s: Seq<(String, String)>) -> Seq<Seq<char>> {
    s.map_values(|p: (String, String)| p.0@)
}

/// The script's command, followed by the extra arguments separated by
/// spaces where there are any.
pub open spec fn command_line(command: Seq<char>, args: Seq<Seq<char>>) -> Seq<char> {
    if args.len() == 0 {
        command
    } else {
        command + " "@ + join_spec(args, " "@)
    }
}

/// The message for a script that does not exist, listing those that do.
pub open spec fn not_found_message(name: Seq<char>, names: Seq<Seq<char>>) -> Seq<char> {
    "script '"@ + name + "' not found.\navailable scripts: "@ + if names.len() == 0 {
        "(none)"@
    } else {
        join_spec(names, ", "@)
    }
}

/// `i` is the first script named `name`.
pub open spec fn first_named(s: Seq<(String, String)>, name: Seq<char>, i: int) -> bool {
    0 <= i < s.len() && s[i].0@ == name && forall|k: int| 0 <= k < i ==> (#[trigger] s[k]).0@ != name
}

fn string_string_views(v: &Vec<String>) -> (r: Vec<Vec<char>>)
    ensures
        views(r@) == string_views(v@),
{
    let mut out: Vec<Vec<char>> = Vec::new();
    let mut i: usize = 0;
    while i < v.len()
        invariant
            0 <= i <= v@.len(),
            views(out@) == string_views(v@).subrange(0, i as int),
        decreases v@.len() - i,
    {
        let ghost before = views(out@);
        let x = chars_of(v[i].as_str());
        assert(x@ == string_views(v@)[i as int]);
        out.push(x);
        assert(views(out@) =~= before.push(x@));
        i = i + 1;
        assert(views(out@) =~= string_views(v@).subrange(0, i as int));
    }
    assert(string_views(v@).subrange(0, v@.len() as int) =~= string_views(v@));
    out
}

/// The command line that runs the script `name` with `args` appended, or
/// the message naming the scripts there are.
pub fn script_command(scripts: &Vec<(String, String)>, name: &str, args: &Vec<String>) -> (r: Result<String, String>)
    ensures
        match r {
            Ok(line) => exists|i: int|
                first_named(scripts@, name@, i) && line@ == command_line(#[trigger] scripts@[i].1@, string_views(args@)),
            Err(msg) => (forall|i: int| 0 <= i < scripts@.len() ==> (#[trigger] scripts@[i]).0@ != name@) && msg@
                == not_found_message(name@, script_names(scripts@)),
        },
{
    let mut i: usize = 0;
    while i < scripts.len()
        invariant
            0 <= i <= scripts@.len(),
            forall|k: int| 0 <= k < i ==> (#[trigger] scripts@[k]).0@ != name@,
        decreases scripts@.len() - i,
    {
        let key = chars_of(scripts[i].0.as_str());
        if crate::text::eq_str(key.as_slice(), name) {
            let mut line = chars_of(scripts[i].1.as_str());
            if args.len() > 0 {
                push_str(&mut line, " ");
                let parts = string_string_views(args);
                let sep = chars_of(" ");
                let joined = join(&parts, sep.as_slice());
                push_all(&mut line, joined.as_slice());
            }
            assert(first_named(scripts@, name@, i as int));
            return Ok(string_from(line.as_slice()));
        }
        i = i + 1;
    }
    let mut names: Vec<Vec<char>> = Vec::new();
    let mut j: usize = 0;
    while j < scripts.len()
        invariant
            0 <= j <= scripts@.len(),
            views(names@) == script_names(scripts@).subrange(0, j as int),
        decreases scripts@.len() - j,
    {
        let ghost before = views(names@);
        let x = chars_of(scripts[j].0.as_str());
        assert(x@ == script_names(scripts@)[j as int]);
        names.push(x);
        assert(views(names@) =~= before.push(x@));
        j = j + 1;
        assert(views(names@) =~= script_names(scripts@).subrange(0, j as int));
    }
    assert(script_names(scripts@).subrange(0, scripts@.len() as int) =~= script_names(scripts@));
    let mut msg = chars_of("script '");
    push_str(&mut msg, name);
    push_str(&mut msg, "' not found.\navailable scripts: ");
    if names.len() == 0 {
        push_str(&mut msg, "(none)");
    } else {
        let sep = chars_of(", ");
        let joined = join(&names, sep.as_slice());
        push_all(&mut msg, joined.as_slice());
    }
    Err(string_from(msg.as_slice()))
}

/// The decimal form of a signed number.
pub open spec fn signed_decimal(n: int) -> Seq<char> {
    if n < 0 {
        "-"@ + decimal_spec((-n) as nat)
    } else {
        decimal_spec(n as nat)
    }
}

/// Why a script failed: the status code it exited with, or that a signal
/// ended it (`None`).
pub open spec fn failure_message_spec(name: Seq<char>, code: Option<i32>) -> Seq<char> {
    match code {
        Some(c) => "script '"@ + name + "' exited with status code: "@ + signed_decimal(c as int),
        None => "script '"@ + name + "' terminated by a signal"@,
    }
}

/// The error for a script that did not succeed.
pub fn script_failure_message(name: &str, code: Option<i32>) -> (r: String)
    ensures
        r@ == failure_message_spec(name@, code),
{
    let mut msg = chars_of("script '");
    push_str(&mut msg, name);
    match code {
        Some(c) => {
            push_str(&mut msg, "' exited with status code: ");
            if c < 0 {
                push_str(&mut msg, "-");
                let m: i64 = -(c as i64);
                let d = decimal(m as u64);
                push_all(&mut msg, d.as_slice());
            } else {
                let d = decimal(c as u64);
                push_all(&mut msg, d.as_slice());
            }
        },
        None => {
            push_str(&mut msg, "' terminated by a signal");
        },
    }
    string_from(msg.as_slice())
}

} // verus!
