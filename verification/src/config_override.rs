//! Command-line overrides of configuration fields (`-s key=value`).

use vstd::prelude::*;
use crate::config::NefuConfig;
use crate::text::{chars_of, string_from};

verus! {

/// What an override did.
#[derive(Debug, Clone, Copy, PartialEq, Eq, Structural)]
pub enum OverrideOutcome {
    /// The field was set.
    Applied,
    /// `rendering_mode` was given a mode that does not exist; nothing changed.
    InvalidRenderingMode,
    /// The key names no field that can be overridden; nothing changed.
    UnknownKey,
    /// The text has no `=`; nothing changed.
    BadFormat,
}

/// `true` or `false`, else the default.
pub open spec fn bool_or(v: Seq<char>, d: bool) -> bool {
    if v == "true"@ {
        true
    } else if v == "false"@ {
        false
    } else {
        d
    }
}

/// The value of a text of decimal digits.
pub open spec fn digits_value(s: Seq<char>) -> nat
    decreases s.len(),
{
    if s.len() == 0 {
        0
    } else {
        digits_value(s.drop_last()) * 10 + ((s.last() as u32) - ('0' as u32)) as nat
    }
}

/// A decimal digit.
pub open spec fn is_digit(c: char) -> bool {
    '0' <= c && c <= '9'
}

/// Every character is a decimal digit.
pub open spec fn all_digits(d: Seq<char>) -> bool {
    forall|i: int| 0 <= i < d.len() ==> is_digit(#[trigger] d[i])
}

/// The text after an optional leading `+`.
pub open spec fn unsigned_digits(v: Seq<char>) -> Seq<char> {
    if v.len() > 0 && v[0] == '+' {
        v.skip(1)
    } else {
        v
    }
}

/// The `u32` that `u32::from_str` reads: an optional `+` and at least one
/// digit, with a value that fits.
pub open spec fn u32_text(v: Seq<char>) -> Option<u32> {
    let d = unsigned_digits(v);
    if d.len() > 0 && all_digits(d) && digits_value(d) <= u32::MAX {
        Some(digits_value(d) as u32)
    } else {
        None
    }
}

/// A number field's new value: the text's number, else the old value.
pub open spec fn u32_or(v: Seq<char>, d: u32) -> u32 {
    match u32_text(v) {
        Some(n) => n,
        None => d,
    }
}

/// What overriding the field named `k` with the text `v` comes to, in the
/// order in which the keys are tried.
pub open spec fn outcome(k: Seq<char>, v: Seq<char>) -> OverrideOutcome {
    if k == "entry"@ || k == "output"@ || k == "description"@ || k == "version"@ || k == "author"@ || k
        == "debug"@ || k == "window_width"@ || k == "window_height"@ || k == "fullscreen"@ || k
        == "resizable"@ || k == "decorations"@ || k == "always_on_top"@ || k == "single_instance"@ || k
        == "persist_window_state"@ || k == "context_menu"@ || k == "drag_drop"@ || k
        == "render_optimization"@ {
        OverrideOutcome::Applied
    } else if k == "rendering_mode"@ {
        if valid_mode(v) {
            OverrideOutcome::Applied
        } else {
            OverrideOutcome::InvalidRenderingMode
        }
    } else if k == "icon"@ || k == "title"@ || k == "csp"@ || k == "protocol"@ || k == "update_url"@ {
        OverrideOutcome::Applied
    } else {
        OverrideOutcome::UnknownKey
    }
}

/// The rendering modes.
pub open spec fn valid_mode(v: Seq<char>) -> bool {
    v == "auto"@ || v == "high-performance"@ || v == "power-saving"@
}

/// `b` is `a` with the field named `k` set from the text `v`: text fields
/// take the text, flags read `true` or `false` (else their default), window
/// sizes read a `u32` (else keep their value), optional fields become
/// `Some`.
pub open spec fn overridden(a: NefuConfig, b: NefuConfig, k: Seq<char>, v: Seq<char>) -> bool {
    if k == "entry"@ {
        b.entry@ == v && b == (NefuConfig { entry: b.entry, ..a })
    } else if k == "output"@ {
        b.output@ == v && b == (NefuConfig { output: b.output, ..a })
    } else if k == "description"@ {
        b.description@ == v && b == (NefuConfig { description: b.description, ..a })
    } else if k == "version"@ {
        b.version@ == v && b == (NefuConfig { version: b.version, ..a })
    } else if k == "author"@ {
        b.author@ == v && b == (NefuConfig { author: b.author, ..a })
    } else if k == "debug"@ {
        b == (NefuConfig { debug: bool_or(v, false), ..a })
    } else if k == "window_width"@ {
        b == (NefuConfig { window_width: u32_or(v, a.window_width), ..a })
    } else if k == "window_height"@ {
        b == (NefuConfig { window_height: u32_or(v, a.window_height), ..a })
    } else if k == "fullscreen"@ {
        b == (NefuConfig { fullscreen: bool_or(v, false), ..a })
    } else if k == "resizable"@ {
        b == (NefuConfig { resizable: bool_or(v, true), ..a })
    } else if k == "decorations"@ {
        b == (NefuConfig { decorations: bool_or(v, true), ..a })
    } else if k == "always_on_top"@ {
        b == (NefuConfig { always_on_top: bool_or(v, false), ..a })
    } else if k == "single_instance"@ {
        b == (NefuConfig { single_instance: bool_or(v, false), ..a })
    } else if k == "persist_window_state"@ {
        b == (NefuConfig { persist_window_state: bool_or(v, true), ..a })
    } else if k == "context_menu"@ {
        b == (NefuConfig { context_menu: bool_or(v, true), ..a })
    } else if k == "drag_drop"@ {
        b == (NefuConfig { drag_drop: bool_or(v, false), ..a })
    } else if k == "render_optimization"@ {
        b == (NefuConfig { render_optimization: bool_or(v, true), ..a })
    } else if k == "rendering_mode"@ {
        b.rendering_mode@ == v && b == (NefuConfig { rendering_mode: b.rendering_mode, ..a })
    } else if k == "icon"@ {
        b.icon matches Some(s) && s@ == v && b == (NefuConfig { icon: b.icon, ..a })
    } else if k == "title"@ {
        b.title matches Some(s) && s@ == v && b == (NefuConfig { title: b.title, ..a })
    } else if k == "csp"@ {
        b.csp matches Some(s) && s@ == v && b == (NefuConfig { csp: b.csp, ..a })
    } else if k == "protocol"@ {
        b.protocol@ == v && b == (NefuConfig { protocol: b.protocol, ..a })
    } else if k == "update_url"@ {
        b.update_url matches Some(s) && s@ == v && b == (NefuConfig { update_url: b.update_url, ..a })
    } else {
        b == a
    }
}

fn bool_or_exec(v: &[char], d: bool) -> (r: bool)
    ensures
        r == bool_or(v@, d),
{
    if crate::text::eq_str(v, "true") {
        true
    } else if crate::text::eq_str(v, "false") {
        false
    } else {
        d
    }
}

fn u32_or_exec(v: &[char], d: u32) -> (r: u32)
    ensures
        r == u32_or(v@, d),
{
    let start: usize = if v.len() > 0 && v[0] == '+' {
        1
    } else {
        0
    };
    let ghost dg = unsigned_digits(v@);
    assert(v@.subrange(start as int, v@.len() as int) =~= dg);
    if start == v.len() {
        return d;
    }
    let mut n: u64 = 0;
    let mut i: usize = start;
    while i < v.len()
        invariant
            start <= i <= v@.len(),
            start < v@.len(),
            dg == v@.subrange(start as int, v@.len() as int),
            dg == unsigned_digits(v@),
            n == digits_value(dg.take(i - start)),
            n <= u32::MAX,
            forall|k: int| 0 <= k < i - start ==> is_digit(#[trigger] dg[k]),
        decreases v@.len() - i,
    {
        let c = v[i];
        assert(dg[i - start] == c);
        if !('0' <= c && c <= '9') {
            assert(!is_digit(dg[i - start]));
            return d;
        }
        assert(dg.take(i + 1 - start).drop_last() =~= dg.take(i - start));
        let digit = (c as u32 - '0' as u32) as u64;
        n = n * 10 + digit;
        if n > 4294967295 {
            proof {
                if all_digits(dg) {
                    lemma_digits_grow(dg, i + 1 - start);
                }
            }
            return d;
        }
        i = i + 1;
    }
    assert(dg.take(dg.len() as int) =~= dg);
    n as u32
}

/// A digit text is worth at least any of its prefixes.
proof fn lemma_digits_grow(d: Seq<char>, k: int)
    requires
        0 <= k <= d.len(),
        all_digits(d),
    ensures
        digits_value(d.take(k)) <= digits_value(d),
    decreases d.len(),
{
    if k == d.len() {
        assert(d.take(k) =~= d);
    } else {
        let p = d.drop_last();
        assert forall|i: int| 0 <= i < p.len() implies is_digit(#[trigger] p[i]) by {
            assert(p[i] == d[i]);
        }
        lemma_digits_grow(p, k);
        assert(p.take(k) =~= d.take(k));
        assert(is_digit(d[d.len() - 1]));
    }
}

/// The key and value of an override: the text before and after its first
/// `=`; `None` without one.
pub open spec fn override_parts(text: Seq<char>) -> Option<(Seq<char>, Seq<char>)> {
    if text.contains('=') {
        Some((crate::protocol::before_char(text, '='), crate::protocol::after_char(text, '=')))
    } else {
        None
    }
}

/// Applies `key=value` to a configuration.
#[verifier::rlimit(60)]
pub fn apply_config_override(config: &mut NefuConfig, text: &str) -> (r: OverrideOutcome)
    ensures
        match override_parts(text@) {
            None => r == OverrideOutcome::BadFormat && *final(config) == *old(config),
            Some((k, v)) => {
                &&& r == outcome(k, v)
                &&& r == OverrideOutcome::Applied ==> overridden(*old(config), *final(config), k, v)
                &&& r != OverrideOutcome::Applied ==> *final(config) == *old(config)
            },
        },
{
    let tv = chars_of(text);
    let (kv, rest) = crate::protocol::split_once(tv.as_slice(), '=');
    let vv = match rest {
        Some(v) => v,
        None => {
            return OverrideOutcome::BadFormat;
        },
    };
    let k = kv.as_slice();
    let v = vv.as_slice();
    let value = string_from(v);
    if crate::text::eq_str(k, "entry") {
        config.entry = value;
    } else if crate::text::eq_str(k, "output") {
        config.output = value;
    } else if crate::text::eq_str(k, "description") {
        config.description = value;
    } else if crate::text::eq_str(k, "version") {
        config.version = value;
    } else if crate::text::eq_str(k, "author") {
        config.author = value;
    } else if crate::text::eq_str(k, "debug") {
        config.debug = bool_or_exec(v, false);
    } else if crate::text::eq_str(k, "window_width") {
        config.window_width = u32_or_exec(v, config.window_width);
    } else if crate::text::eq_str(k, "window_height") {
        config.window_height = u32_or_exec(v, config.window_height);
    } else if crate::text::eq_str(k, "fullscreen") {
        config.fullscreen = bool_or_exec(v, false);
    } else if crate::text::eq_str(k, "resizable") {
        config.resizable = bool_or_exec(v, true);
    } else if crate::text::eq_str(k, "decorations") {
        config.decorations = bool_or_exec(v, true);
    } else if crate::text::eq_str(k, "always_on_top") {
        config.always_on_top = bool_or_exec(v, false);
    } else if crate::text::eq_str(k, "single_instance") {
        config.single_instance = bool_or_exec(v, false);
    } else if crate::text::eq_str(k, "persist_window_state") {
        config.persist_window_state = bool_or_exec(v, true);
    } else if crate::text::eq_str(k, "context_menu") {
        config.context_menu = bool_or_exec(v, true);
    } else if crate::text::eq_str(k, "drag_drop") {
        config.drag_drop = bool_or_exec(v, false);
    } else if crate::text::eq_str(k, "render_optimization") {
        config.render_optimization = bool_or_exec(v, true);
    } else if crate::text::eq_str(k, "rendering_mode") {
        if crate::text::eq_str(v, "auto") || crate::text::eq_str(v, "high-performance") || crate::text::eq_str(
            v,
            "power-saving",
        ) {
            config.rendering_mode = value;
        } else {
            return OverrideOutcome::InvalidRenderingMode;
        }
    } else if crate::text::eq_str(k, "icon") {
        config.icon = Some(value);
    } else if crate::text::eq_str(k, "title") {
        config.title = Some(value);
    } else if crate::text::eq_str(k, "csp") {
        config.csp = Some(value);
    } else if crate::text::eq_str(k, "protocol") {
        config.protocol = value;
    } else if crate::text::eq_str(k, "update_url") {
        config.update_url = Some(value);
    } else {
        return OverrideOutcome::UnknownKey;
    }
    OverrideOutcome::Applied
}

} // verus!
