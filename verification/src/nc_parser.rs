//! The `.nc` page language, script syntax: `import<module>`, `main"`, the
//! calls `nefu(method, args...)` that become `nefu.invoke(...)` in the page's
//! script, and `end(...)`; `\` starts a line comment and `/* ... */` a block
//! comment. Files in the older JSON syntax are rendered by `nc_render`.

use vstd::prelude::*;
use crate::kv::{kv_get, map_of};
use crate::text::{
    chars_of, ends_with_str, has_prefix, has_suffix, is_uppercase, join, join_spec, owned,
    push_all, push_str, slice_chars, split_char, split_spec, starts_with_str, string_from, trim,
    trim_spec, trim_start, trim_start_spec, unicode_uppercase, views,
};

verus! {

/// Bootstrap's stylesheet.
pub const BOOTSTRAP_CSS_CDN: &'static str = "https://cdn.jsdelivr.net/npm/bootstrap@5.3.0/dist/css/bootstrap.min.css";

/// Bootstrap's script bundle.
pub const BOOTSTRAP_JS_CDN: &'static str = "https://cdn.jsdelivr.net/npm/bootstrap@5.3.0/dist/js/bootstrap.bundle.min.js";

/// Font Awesome's stylesheet.
pub const FONTAWESOME_CDN: &'static str = "https://cdnjs.cloudflare.com/ajax/libs/font-awesome/6.5.0/css/all.min.css";

/// The Inter font.
pub const GOOGLE_FONTS_URL: &'static str = "https://fonts.googleapis.com/css2?family=Inter:wght@300;400;500;600;700&display=swap";

// ==================== Errors ====================

/// Why an `.nc` file was refused.
#[derive(Debug)]
pub enum NcError {
    /// A line in `main` that was taken for a call is not one; the line.
    InvalidCall(String),
    /// A call's parentheses do not close; the line.
    UnbalancedCall(String),
    /// A call has nothing between its parentheses; the line.
    MissingArguments(String),
    /// An argument of a call is a lone quote character, a string that never
    /// closes; the line.
    LoneQuote(String),
    /// A file in the JSON syntax is not JSON.
    NotJson,
    /// The JSON root is not an object.
    RootNotObject,
    /// The JSON root names no component.
    MissingKind,
}

/// An error, with its line as characters.
pub enum NcFailure {
    InvalidCall(Seq<char>),
    UnbalancedCall(Seq<char>),
    MissingArguments(Seq<char>),
    LoneQuote(Seq<char>),
    NotJson,
    RootNotObject,
    MissingKind,
}

impl View for NcError {
    type V = NcFailure;

    open spec fn view(&self) -> NcFailure {
        match self {
            NcError::InvalidCall(l) => NcFailure::InvalidCall(l@),
            NcError::UnbalancedCall(l) => NcFailure::UnbalancedCall(l@),
            NcError::MissingArguments(l) => NcFailure::MissingArguments(l@),
            NcError::LoneQuote(l) => NcFailure::LoneQuote(l@),
            NcError::NotJson => NcFailure::NotJson,
            NcError::RootNotObject => NcFailure::RootNotObject,
            NcError::MissingKind => NcFailure::MissingKind,
        }
    }
}

/// The message of an error.
pub open spec fn failure_message(f: NcFailure) -> Seq<char> {
    match f {
        NcFailure::InvalidCall(l) => "Invalid nefu call: "@ + l,
        NcFailure::UnbalancedCall(l) => "nefu() unbalanced parentheses: "@ + l,
        NcFailure::MissingArguments(l) => "nefu() missing arguments: "@ + l,
        NcFailure::LoneQuote(l) => "nefu() unterminated string argument: "@ + l,
        NcFailure::NotJson => "NC file is not valid JSON format (when using new syntax, start with import< or main\")"@,
        NcFailure::RootNotObject => "NC root node must be a JSON object"@,
        NcFailure::MissingKind => "NC root node is missing the 'component' or 'type' field (use component: \"xxx\" or type: \"xxx\")"@,
    }
}

impl NcError {
    /// The message that describes the error.
    pub fn message(&self) -> (r: String)
        ensures
            r@ == failure_message(self@),
    {
        let mut v: Vec<char> = Vec::new();
        match self {
            NcError::InvalidCall(l) => {
                push_str(&mut v, "Invalid nefu call: ");
                push_str(&mut v, l.as_str());
            },
            NcError::UnbalancedCall(l) => {
                push_str(&mut v, "nefu() unbalanced parentheses: ");
                push_str(&mut v, l.as_str());
            },
            NcError::MissingArguments(l) => {
                push_str(&mut v, "nefu() missing arguments: ");
                push_str(&mut v, l.as_str());
            },
            NcError::LoneQuote(l) => {
                push_str(&mut v, "nefu() unterminated string argument: ");
                push_str(&mut v, l.as_str());
            },
            NcError::NotJson => {
                push_str(&mut v, "NC file is not valid JSON format (when using new syntax, start with import< or main\")");
            },
            NcError::RootNotObject => {
                push_str(&mut v, "NC root node must be a JSON object");
            },
            NcError::MissingKind => {
                push_str(
                    &mut v,
                    "NC root node is missing the 'component' or 'type' field (use component: \"xxx\" or type: \"xxx\")",
                );
            },
        }
        string_from(v.as_slice())
    }
}

// ==================== Syntax detection ====================

/// A file is in the script syntax when, after leading whitespace, it
/// starts with `import<`, `main"`, `main'`, `\` or `/*`.
pub open spec fn is_new_syntax_spec(content: Seq<char>) -> bool {
    let t = trim_start_spec(content);
    has_prefix(t, "import<"@) || has_prefix(t, "main\""@) || has_prefix(t, "main'"@) || has_prefix(
        t,
        "\\"@,
    ) || has_prefix(t, "/*"@)
}

/// Whether a file is in the script syntax.
pub fn is_new_syntax(content: &str) -> (r: bool)
    ensures
        r == is_new_syntax_spec(content@),
{
    let v = chars_of(content);
    let t = trim_start(v.as_slice());
    let s = t.as_slice();
    starts_with_str(s, "import<") || starts_with_str(s, "main\"") || starts_with_str(s, "main'")
        || starts_with_str(s, "\\") || starts_with_str(s, "/*")
}

// ==================== Comments ====================

/// The length of the first line of `s`, up to its `\n`.
pub open spec fn line_len(s: Seq<char>) -> nat
    decreases s.len(),
{
    if s.len() == 0 || s[0] == '\n' {
        0
    } else {
        1 + line_len(s.skip(1))
    }
}

/// Where a block comment whose search starts at `i` ends: after the first
/// `*/` at or after `i`; where none follows, at the last character (the
/// scan stops there), or at `i` itself if that comes first.
pub open spec fn block_end(s: Seq<char>, i: int) -> int
    decreases s.len() - i,
{
    if i + 1 >= s.len() {
        i
    } else if s[i] == '*' && s[i + 1] == '/' {
        i + 2
    } else {
        block_end(s, i + 1)
    }
}

pub proof fn lemma_line_len(s: Seq<char>)
    ensures
        line_len(s) <= s.len(),
        forall|k: int| 0 <= k < line_len(s) ==> s[k] != '\n',
        line_len(s) < s.len() ==> s[line_len(s) as int] == '\n',
    decreases s.len(),
{
    if s.len() > 0 && s[0] != '\n' {
        lemma_line_len(s.skip(1));
        assert forall|k: int| 0 <= k < line_len(s) implies s[k] != '\n' by {
            if k > 0 {
                assert(s.skip(1)[k - 1] == s[k]);
            }
        }
        if line_len(s) < s.len() {
            assert(s.skip(1)[line_len(s.skip(1)) as int] == s[line_len(s) as int]);
        }
    }
}

pub proof fn lemma_block_end(s: Seq<char>, i: int)
    requires
        0 <= i <= s.len(),
    ensures
        i <= block_end(s, i) <= s.len(),
    decreases s.len() - i,
{
    if i + 1 < s.len() && !(s[i] == '*' && s[i + 1] == '/') {
        lemma_block_end(s, i + 1);
    }
}

/// `s` without its comments: a `\` not followed by another `\` (nor at the
/// very end) drops the rest of its line, keeping the `\n`; `/*` drops up to
/// and with the next `*/`.
pub open spec fn strip_comments(s: Seq<char>) -> Seq<char>
    decreases s.len(),
{
    if s.len() == 0 {
        Seq::empty()
    } else if s[0] == '\\' && s.len() > 1 && s[1] != '\\' {
        proof {
            lemma_line_len(s);
        }
        if line_len(s) > 0 {
            strip_comments(s.skip(line_len(s) as int))
        } else {
            Seq::empty()
        }
    } else if s[0] == '/' && s.len() > 1 && s[1] == '*' {
        proof {
            lemma_block_end(s, 2);
        }
        strip_comments(s.skip(block_end(s, 2)))
    } else {
        seq![s[0]] + strip_comments(s.skip(1))
    }
}

/// Removes the comments of a script.
pub fn remove_comments(content: &str) -> (r: String)
    ensures
        r@ == strip_comments(content@),
{
    let v = chars_of(content);
    let s = v.as_slice();
    let n = s.len();
    let mut out: Vec<char> = Vec::new();
    let mut i: usize = 0;
    assert(s@.skip(0) =~= s@);
    while i < n
        invariant
            n == s@.len(),
            s@ == content@,
            0 <= i <= n,
            out@ + strip_comments(s@.skip(i as int)) == strip_comments(s@),
        decreases n - i,
    {
        let ghost rest = s@.skip(i as int);
        assert(rest[0] == s@[i as int]);
        if s[i] == '\\' && i + 1 < n && s[i + 1] != '\\' {
            assert(rest[1] == s@[i + 1]);
            let mut j: usize = i;
            proof {
                lemma_line_len(rest);
            }
            while j < n && s[j] != '\n'
                invariant
                    i <= j <= n,
                    n == s@.len(),
                    rest == s@.skip(i as int),
                    j - i <= line_len(rest),
                    line_len(rest) <= rest.len(),
                    forall|k: int| 0 <= k < line_len(rest) ==> rest[k] != '\n',
                    line_len(rest) < rest.len() ==> rest[line_len(rest) as int] == '\n',
                decreases n - j,
            {
                assert(rest[j - i] == s@[j as int]);
                j = j + 1;
            }
            proof {
                if j < n {
                    assert(rest[j - i] == s@[j as int]);
                }
                assert(j - i == line_len(rest));
                assert(rest.skip(line_len(rest) as int) =~= s@.skip(j as int));
            }
            i = j;
        } else if s[i] == '/' && i + 1 < n && s[i + 1] == '*' {
            assert(rest[1] == s@[i + 1]);
            let mut j: usize = i + 2;
            while j < n - 1 && !(s[j] == '*' && s[j + 1] == '/')
                invariant
                    i + 2 <= j <= n,
                    n == s@.len(),
                    rest == s@.skip(i as int),
                    block_end(rest, 2) == block_end(rest, j - i),
                decreases n - j,
            {
                assert(rest[j - i] == s@[j as int] && rest[j - i + 1] == s@[j + 1]);
                j = j + 1;
            }
            let e = if j < n - 1 {
                j + 2
            } else {
                j
            };
            proof {
                if j + 1 < n {
                    assert(rest[j - i] == s@[j as int] && rest[j - i + 1] == s@[j + 1]);
                }
                assert(block_end(rest, 2) == e - i);
                assert(rest.skip(e - i) =~= s@.skip(e as int));
            }
            i = e;
        } else {
            proof {
                if s@[i as int] == '\\' && i + 1 < n {
                    assert(rest[1] == s@[i + 1]);
                }
                if s@[i as int] == '/' && i + 1 < n {
                    assert(rest[1] == s@[i + 1]);
                }
                assert(rest.skip(1) =~= s@.skip(i + 1));
                assert(out@.push(s@[i as int]) + strip_comments(rest.skip(1)) =~= out@ + (seq![rest[0]]
                    + strip_comments(rest.skip(1))));
            }
            out.push(s[i]);
            i = i + 1;
        }
    }
    assert(s@.skip(n as int) =~= Seq::<char>::empty());
    assert(out@ + Seq::<char>::empty() =~= out@);
    string_from(out.as_slice())
}

// ==================== Call arguments ====================

/// The state of the argument scan: the pieces found so far (trimmed, not
/// empty), the current piece, the parenthesis and bracket depths, and
/// whether a quoted text is open (and by which quote).
pub struct ScanState {
    pub pieces: Seq<Seq<char>>,
    pub cur: Seq<char>,
    pub paren: int,
    pub bracket: int,
    pub in_str: bool,
    pub quote: char,
}

/// The state before any character.
pub open spec fn scan_start() -> ScanState {
    ScanState { pieces: Seq::empty(), cur: Seq::empty(), paren: 0, bracket: 0, in_str: false, quote: '"' }
}

/// The current piece closed: kept where it is not blank after trimming.
pub open spec fn close_piece(pieces: Seq<Seq<char>>, cur: Seq<char>) -> Seq<Seq<char>> {
    if trim_spec(cur).len() > 0 {
        pieces.push(trim_spec(cur))
    } else {
        pieces
    }
}

/// One character of the scan. Inside quotes every character is kept and
/// the same quote closes; outside, quotes open, parentheses and brackets
/// are counted, and a comma at depth zero ends a piece.
pub open spec fn scan_step(st: ScanState, c: char) -> ScanState {
    if st.in_str {
        ScanState { cur: st.cur.push(c), in_str: c != st.quote, ..st }
    } else if c == '"' || c == '\'' {
        ScanState { cur: st.cur.push(c), in_str: true, quote: c, ..st }
    } else if c == '(' {
        ScanState { cur: st.cur.push(c), paren: st.paren + 1, ..st }
    } else if c == ')' {
        ScanState { cur: st.cur.push(c), paren: st.paren - 1, ..st }
    } else if c == '[' {
        ScanState { cur: st.cur.push(c), bracket: st.bracket + 1, ..st }
    } else if c == ']' {
        ScanState { cur: st.cur.push(c), bracket: st.bracket - 1, ..st }
    } else if c == ',' && st.paren == 0 && st.bracket == 0 {
        ScanState { pieces: close_piece(st.pieces, st.cur), cur: Seq::empty(), ..st }
    } else {
        ScanState { cur: st.cur.push(c), ..st }
    }
}

/// The scan of all of `s`.
pub open spec fn scan(s: Seq<char>) -> ScanState
    decreases s.len(),
{
    if s.len() == 0 {
        scan_start()
    } else {
        scan_step(scan(s.drop_last()), s.last())
    }
}

/// The argument texts of an argument list: split at commas outside quotes,
/// parentheses and brackets, trimmed, blank ones dropped.
pub open spec fn arg_pieces(s: Seq<char>) -> Seq<Seq<char>> {
    close_piece(scan(s).pieces, scan(s).cur)
}

pub proof fn lemma_scan_len(s: Seq<char>)
    ensures
        scan(s).cur.len() <= s.len(),
        forall|i: int| 0 <= i < scan(s).pieces.len() ==> (#[trigger] scan(s).pieces[i]).len() <= s.len(),
        -s.len() <= scan(s).paren <= s.len(),
        -s.len() <= scan(s).bracket <= s.len(),
    decreases s.len(),
{
    if s.len() > 0 {
        lemma_scan_len(s.drop_last());
        crate::text::lemma_trim_len(scan(s.drop_last()).cur);
    }
}

pub proof fn lemma_pieces_len(s: Seq<char>)
    ensures
        forall|i: int| 0 <= i < arg_pieces(s).len() ==> (#[trigger] arg_pieces(s)[i]).len() <= s.len(),
{
    lemma_scan_len(s);
    crate::text::lemma_trim_len(scan(s).cur);
}

/// A parsed argument, with its texts as characters.
pub enum ArgModel {
    Str(Seq<char>),
    Number(Seq<char>),
    Boolean(bool),
    Array(Seq<ArgModel>),
    Identifier(Seq<char>),
}

/// `v` is wrapped in the same quote at both ends (one quote alone is both).
pub open spec fn quoted(v: Seq<char>) -> bool {
    (has_prefix(v, "\""@) && has_suffix(v, "\""@)) || (has_prefix(v, "'"@) && has_suffix(v, "'"@))
}

/// `v` is wrapped in brackets.
pub open spec fn bracketed(v: Seq<char>) -> bool {
    has_prefix(v, "["@) && has_suffix(v, "]"@)
}

/// `v` without its first and last characters.
pub open spec fn inner(v: Seq<char>) -> Seq<char> {
    v.subrange(1, v.len() - 1)
}

/// An ASCII digit.
pub open spec fn is_digit(c: char) -> bool {
    '0' <= c && c <= '9'
}

/// The mantissa of a decimal number: digits with at most one `.`, and at
/// least one digit.
pub open spec fn mantissa_ok(m: Seq<char>) -> bool {
    &&& forall|i: int| 0 <= i < m.len() ==> is_digit(#[trigger] m[i]) || m[i] == '.'
    &&& forall|i: int, j: int| 0 <= i < j < m.len() && #[trigger] m[i] == '.' ==> #[trigger] m[j] != '.'
    &&& exists|i: int| 0 <= i < m.len() && is_digit(#[trigger] m[i])
}

/// `x` without a leading sign.
pub open spec fn unsigned_part(x: Seq<char>) -> Seq<char> {
    if x.len() > 0 && (x[0] == '+' || x[0] == '-') {
        x.skip(1)
    } else {
        x
    }
}

/// An exponent after `e`: an optional sign and at least one digit.
pub open spec fn exponent_ok(x: Seq<char>) -> bool {
    let d = unsigned_part(x);
    d.len() > 0 && forall|i: int| 0 <= i < d.len() ==> is_digit(#[trigger] d[i])
}

/// `t` in ASCII lowercase equals `w`.
pub open spec fn lower_is(t: Seq<char>, w: Seq<char>) -> bool {
    t.len() == w.len() && forall|i: int| 0 <= i < t.len() ==> crate::text::ascii_lower(#[trigger] t[i]) == w[i]
}

/// The text of a number that `f64::from_str` reads: an optional sign, then
/// `inf`, `infinity` or `nan` in any case, or a decimal mantissa with an
/// optional exponent (`e` or `E`). Every integer that `i64::from_str`
/// reads is one of them.
pub open spec fn number_text(v: Seq<char>) -> bool {
    let t = unsigned_part(v);
    ||| lower_is(t, "inf"@)
    ||| lower_is(t, "infinity"@)
    ||| lower_is(t, "nan"@)
    ||| mantissa_ok(t)
    ||| exists|k: int| 0 <= k < t.len() && ((#[trigger] t[k]) == 'e' || t[k] == 'E') && mantissa_ok(t.take(k))
        && exponent_ok(t.skip(k + 1))
}

/// The argument a text is: quoted text, an array, a number, `true` or
/// `false`, else a name.
pub open spec fn parse_value_spec(value: Seq<char>) -> ArgModel
    decreases value.len(), 0int, 0int,
{
    let v = trim_spec(value);
    proof {
        crate::text::lemma_trim_len(value);
    }
    if quoted(v) && v.len() >= 2 {
        ArgModel::Str(inner(v))
    } else if bracketed(v) && v.len() >= 2 {
        ArgModel::Array(parse_args_spec(inner(v)))
    } else if number_text(v) {
        ArgModel::Number(v)
    } else if v == "true"@ {
        ArgModel::Boolean(true)
    } else if v == "false"@ {
        ArgModel::Boolean(false)
    } else {
        ArgModel::Identifier(v)
    }
}

/// The arguments of an argument list.
pub open spec fn parse_args_spec(s: Seq<char>) -> Seq<ArgModel>
    decreases s.len(), 2int, 0int,
{
    parse_values(arg_pieces(s), s.len())
}

/// The arguments that pieces no longer than `bound` are.
pub open spec fn parse_values(ps: Seq<Seq<char>>, bound: nat) -> Seq<ArgModel>
    decreases bound, 1int, ps.len(),
{
    if ps.len() == 0 {
        Seq::empty()
    } else if ps.last().len() <= bound {
        parse_values(ps.drop_last(), bound).push(parse_value_spec(ps.last()))
    } else {
        Seq::empty()
    }
}

/// No argument, at any depth, is a single quote character (whose inner
/// text would run backwards).
pub open spec fn no_lone_quote(value: Seq<char>) -> bool
    decreases value.len(), 0int, 0int,
{
    let v = trim_spec(value);
    proof {
        crate::text::lemma_trim_len(value);
    }
    if quoted(v) {
        v.len() >= 2
    } else if bracketed(v) && v.len() >= 2 {
        args_no_lone_quote(inner(v))
    } else {
        true
    }
}

/// No argument of the list, at any depth, is a single quote character.
pub open spec fn args_no_lone_quote(s: Seq<char>) -> bool
    decreases s.len(), 2int, 0int,
{
    pieces_no_lone_quote(arg_pieces(s), s.len())
}

/// No piece, at any depth, is a single quote character.
pub open spec fn pieces_no_lone_quote(ps: Seq<Seq<char>>, bound: nat) -> bool
    decreases bound, 1int, ps.len(),
{
    if ps.len() == 0 {
        true
    } else if ps.last().len() <= bound {
        pieces_no_lone_quote(ps.drop_last(), bound) && no_lone_quote(ps.last())
    } else {
        true
    }
}

/// A parsed argument of a `nefu(...)` call.
#[derive(Debug)]
pub enum NefuArg {
    /// Quoted text, without its quotes.
    String(String),
    /// A number, as written.
    Number(String),
    /// `true` or `false`.
    Boolean(bool),
    /// An array of arguments.
    Array(Vec<NefuArg>),
    /// A name.
    Identifier(String),
}

/// The model of an argument.
pub open spec fn arg_view(a: NefuArg) -> ArgModel
    decreases a,
{
    match a {
        NefuArg::String(s) => ArgModel::Str(s@),
        NefuArg::Number(s) => ArgModel::Number(s@),
        NefuArg::Boolean(b) => ArgModel::Boolean(b),
        NefuArg::Array(v) => {
            proof {
                assert(decreases_to!(a => v));
                assert(decreases_to!(v => v@));
            }
            ArgModel::Array(args_view(v@))
        },
        NefuArg::Identifier(s) => ArgModel::Identifier(s@),
    }
}

/// The models of arguments.
pub open spec fn args_view(v: Seq<NefuArg>) -> Seq<ArgModel>
    decreases v,
{
    if v.len() == 0 {
        Seq::empty()
    } else {
        proof {
            assert(decreases_to!(v => v[v.len() - 1]));
            assert(decreases_to!(v => v.subrange(0, v.len() - 1)));
        }
        args_view(v.drop_last()).push(arg_view(v.last()))
    }
}

proof fn lemma_args_view_len(v: Seq<NefuArg>)
    ensures
        args_view(v).len() == v.len(),
    decreases v.len(),
{
    if v.len() > 0 {
        lemma_args_view_len(v.drop_last());
    }
}

pub proof fn lemma_scan_mono(s: Seq<char>, i: int, j: int)
    requires
        0 <= i <= j <= s.len(),
    ensures
        scan(s.take(i)).pieces.len() <= scan(s.take(j)).pieces.len(),
        scan(s.take(j)).pieces.take(scan(s.take(i)).pieces.len() as int) == scan(s.take(i)).pieces,
    decreases j - i,
{
    if i < j {
        lemma_scan_mono(s, i, j - 1);
        assert(s.take(j).drop_last() =~= s.take(j - 1));
        let a = scan(s.take(i)).pieces;
        let b = scan(s.take(j - 1)).pieces;
        let c = scan(s.take(j)).pieces;
        assert(c.take(b.len() as int) =~= b);
        assert(c.take(a.len() as int) =~= b.take(a.len() as int));
    } else {
        let a = scan(s.take(i)).pieces;
        assert(a.take(a.len() as int) =~= a);
    }
}

pub proof fn lemma_scan_prefix(s: Seq<char>, i: int)
    requires
        0 <= i <= s.len(),
    ensures
        scan(s.take(i)).pieces.len() <= arg_pieces(s).len(),
        arg_pieces(s).take(scan(s.take(i)).pieces.len() as int) == scan(s.take(i)).pieces,
{
    lemma_scan_mono(s, i, s.len() as int);
    assert(s.take(s.len() as int) =~= s);
    let a = scan(s.take(i)).pieces;
    let b = scan(s).pieces;
    assert(arg_pieces(s).take(b.len() as int) =~= b);
    assert(arg_pieces(s).take(a.len() as int) =~= b.take(a.len() as int));
}

pub proof fn lemma_pieces_safe(ps: Seq<Seq<char>>, bound: nat, k: int)
    requires
        pieces_no_lone_quote(ps, bound),
        0 <= k < ps.len(),
        forall|m: int| 0 <= m < ps.len() ==> (#[trigger] ps[m]).len() <= bound,
    ensures
        no_lone_quote(ps[k]),
    decreases ps.len(),
{
    if k < ps.len() - 1 {
        assert(ps.drop_last()[k] == ps[k]);
        lemma_pieces_safe(ps.drop_last(), bound, k);
    }
}

/// Parses one argument text.
pub fn parse_arg_value(value: &str) -> (r: NefuArg)
    requires
        no_lone_quote(value@),
    ensures
        arg_view(r) == parse_value_spec(value@),
    decreases value@.len(), 0int, 0int,
{
    proof {
        reveal_strlit("\"");
        reveal_strlit("'");
        reveal_strlit("[");
        reveal_strlit("]");
        crate::text::lemma_trim_len(value@);
    }
    let w = chars_of(value);
    let v = trim(w.as_slice());
    let n = v.len();
    if (starts_with_str(v.as_slice(), "\"") && ends_with_str(v.as_slice(), "\"")) || (starts_with_str(
        v.as_slice(),
        "'",
    ) && ends_with_str(v.as_slice(), "'")) {
        let i = slice_chars(v.as_slice(), 1, n - 1);
        return NefuArg::String(string_from(i.as_slice()));
    }
    if starts_with_str(v.as_slice(), "[") && ends_with_str(v.as_slice(), "]") && n >= 2 {
        let i = slice_chars(v.as_slice(), 1, n - 1);
        let t = string_from(i.as_slice());
        let items = parse_nefu_args(t.as_str());
        return NefuArg::Array(items);
    }
    if is_number_text(v.as_slice()) {
        return NefuArg::Number(string_from(v.as_slice()));
    }
    if crate::text::eq_str(v.as_slice(), "true") {
        return NefuArg::Boolean(true);
    }
    if crate::text::eq_str(v.as_slice(), "false") {
        return NefuArg::Boolean(false);
    }
    NefuArg::Identifier(string_from(v.as_slice()))
}

/// Splits an argument list and parses each argument.
pub fn parse_nefu_args(input: &str) -> (r: Vec<NefuArg>)
    requires
        args_no_lone_quote(input@),
    ensures
        args_view(r@) == parse_args_spec(input@),
    decreases input@.len(), 2int, 0int,
{
    let v = chars_of(input);
    let n = v.len();
    let ghost full = arg_pieces(input@);
    proof {
        lemma_pieces_len(input@);
        assert forall|k: int| 0 <= k < full.len() implies no_lone_quote(#[trigger] full[k]) by {
            lemma_pieces_safe(full, n as nat, k);
        }
        assert(input@.take(0) =~= Seq::<char>::empty());
    }
    let mut args: Vec<NefuArg> = Vec::new();
    let mut cur: Vec<char> = Vec::new();
    let mut paren: i128 = 0;
    let mut bracket: i128 = 0;
    let mut in_str = false;
    let mut quote = '"';
    let mut i: usize = 0;
    while i < n
        invariant
            v@ == input@,
            n == v@.len(),
            0 <= i <= n,
            full == arg_pieces(input@),
            forall|k: int| 0 <= k < full.len() ==> (#[trigger] full[k]).len() <= n && no_lone_quote(full[k]),
            ({
                let st = scan(input@.take(i as int));
                &&& st.cur == cur@
                &&& st.paren == paren
                &&& st.bracket == bracket
                &&& st.in_str == in_str
                &&& st.quote == quote
                &&& st.pieces.len() <= full.len()
                &&& full.take(st.pieces.len() as int) == st.pieces
                &&& args_view(args@) == parse_values(st.pieces, n as nat)
            }),
            -(i as int) <= paren <= i,
            -(i as int) <= bracket <= i,
        decreases n - i,
    {
        let c = v[i];
        let ghost before = scan(input@.take(i as int));
        proof {
            assert(input@.take(i + 1).drop_last() =~= input@.take(i as int));
            assert(input@.take(i + 1).last() == c);
            lemma_scan_prefix(input@, i + 1);
        }
        if in_str {
            cur.push(c);
            if c == quote {
                in_str = false;
            }
        } else if c == '"' || c == '\'' {
            in_str = true;
            quote = c;
            cur.push(c);
        } else if c == '(' {
            paren = paren + 1;
            cur.push(c);
        } else if c == ')' {
            paren = paren - 1;
            cur.push(c);
        } else if c == '[' {
            bracket = bracket + 1;
            cur.push(c);
        } else if c == ']' {
            bracket = bracket - 1;
            cur.push(c);
        } else if c == ',' && paren == 0 && bracket == 0 {
            let t = trim(cur.as_slice());
            if t.len() > 0 {
                let ghost k = before.pieces.len() as int;
                proof {
                    let after = scan(input@.take(i + 1)).pieces;
                    assert(after == before.pieces.push(t@));
                    assert(full.take(after.len() as int)[k] == full[k]);
                    assert(full[k] == t@);
                    assert(after.drop_last() =~= before.pieces);
                }
                let ts = string_from(t.as_slice());
                let a = parse_arg_value(ts.as_str());
                let ghost old_args = args@;
                args.push(a);
                proof {
                    assert(args@.drop_last() =~= old_args);
                }
            }
            cur = Vec::new();
        } else {
            cur.push(c);
        }
        i = i + 1;
    }
    proof {
        assert(input@.take(n as int) =~= input@);
        lemma_scan_len(input@);
    }
    let t = trim(cur.as_slice());
    if t.len() > 0 {
        let ghost k = scan(input@).pieces.len() as int;
        proof {
            assert(full == scan(input@).pieces.push(t@));
            assert(full[k] == t@);
            crate::text::lemma_trim_len(cur@);
            assert(full.drop_last() =~= scan(input@).pieces);
        }
        let ts = string_from(t.as_slice());
        let a = parse_arg_value(ts.as_str());
        let ghost old_args = args@;
        args.push(a);
        proof {
            assert(args@.drop_last() =~= old_args);
        }
    }
    args
}

// ==================== Lone quotes ====================

/// The argument texts of a list, as the scan finds them.
fn arg_pieces_exec(input: &[char]) -> (r: Vec<Vec<char>>)
    ensures
        crate::text::views(r@) == arg_pieces(input@),
{
    let n = input.len();
    let mut pieces: Vec<Vec<char>> = Vec::new();
    let mut cur: Vec<char> = Vec::new();
    let mut paren: i128 = 0;
    let mut bracket: i128 = 0;
    let mut in_str = false;
    let mut quote = '"';
    let mut i: usize = 0;
    assert(input@.take(0) =~= Seq::<char>::empty());
    while i < n
        invariant
            n == input@.len(),
            0 <= i <= n,
            ({
                let st = scan(input@.take(i as int));
                &&& st.cur == cur@
                &&& st.paren == paren
                &&& st.bracket == bracket
                &&& st.in_str == in_str
                &&& st.quote == quote
                &&& st.pieces == crate::text::views(pieces@)
            }),
            -(i as int) <= paren <= i,
            -(i as int) <= bracket <= i,
        decreases n - i,
    {
        let c = input[i];
        proof {
            assert(input@.take(i + 1).drop_last() =~= input@.take(i as int));
            assert(input@.take(i + 1).last() == c);
        }
        if in_str {
            cur.push(c);
            if c == quote {
                in_str = false;
            }
        } else if c == '"' || c == '\'' {
            in_str = true;
            quote = c;
            cur.push(c);
        } else if c == '(' {
            paren = paren + 1;
            cur.push(c);
        } else if c == ')' {
            paren = paren - 1;
            cur.push(c);
        } else if c == '[' {
            bracket = bracket + 1;
            cur.push(c);
        } else if c == ']' {
            bracket = bracket - 1;
            cur.push(c);
        } else if c == ',' && paren == 0 && bracket == 0 {
            let t = trim(cur.as_slice());
            if t.len() > 0 {
                let ghost before = crate::text::views(pieces@);
                pieces.push(t);
                assert(crate::text::views(pieces@) =~= before.push(trim_spec(cur@)));
            }
            cur = Vec::new();
        } else {
            cur.push(c);
        }
        i = i + 1;
    }
    assert(input@.take(n as int) =~= input@);
    let t = trim(cur.as_slice());
    if t.len() > 0 {
        let ghost before = crate::text::views(pieces@);
        pieces.push(t);
        assert(crate::text::views(pieces@) =~= before.push(trim_spec(cur@)));
    }
    pieces
}

/// Whether an argument text, at any depth, is free of a lone quote.
fn no_lone_quote_exec(value: &[char]) -> (r: bool)
    ensures
        r == no_lone_quote(value@),
    decreases value@.len(), 0int,
{
    proof {
        reveal_strlit("\"");
        reveal_strlit("'");
        reveal_strlit("[");
        reveal_strlit("]");
        crate::text::lemma_trim_len(value@);
    }
    let v = trim(value);
    let n = v.len();
    if (starts_with_str(v.as_slice(), "\"") && ends_with_str(v.as_slice(), "\"")) || (starts_with_str(
        v.as_slice(),
        "'",
    ) && ends_with_str(v.as_slice(), "'")) {
        return n >= 2;
    }
    if starts_with_str(v.as_slice(), "[") && ends_with_str(v.as_slice(), "]") && n >= 2 {
        let i = slice_chars(v.as_slice(), 1, n - 1);
        return args_no_lone_quote_exec(i.as_slice());
    }
    true
}

/// Whether an argument list, at any depth, is free of a lone quote.
fn args_no_lone_quote_exec(s: &[char]) -> (r: bool)
    ensures
        r == args_no_lone_quote(s@),
    decreases s@.len(), 2int,
{
    let pieces = arg_pieces_exec(s);
    let ghost ps = arg_pieces(s@);
    proof {
        lemma_pieces_len(s@);
        assert(ps.take(0) =~= Seq::<Seq<char>>::empty());
    }
    let mut k: usize = 0;
    while k < pieces.len()
        invariant
            0 <= k <= pieces@.len(),
            ps == crate::text::views(pieces@),
            ps == arg_pieces(s@),
            forall|m: int| 0 <= m < ps.len() ==> (#[trigger] ps[m]).len() <= s@.len(),
            pieces_no_lone_quote(ps.take(k as int), s@.len()),
        decreases pieces@.len() - k,
    {
        proof {
            assert(ps.take(k + 1).drop_last() =~= ps.take(k as int));
            assert(ps.take(k + 1).last() == ps[k as int]);
            assert(ps[k as int] == pieces@[k as int]@);
        }
        if !no_lone_quote_exec(pieces[k].as_slice()) {
            proof {
                lemma_pieces_prefix_fail(ps, s@.len(), k as int + 1);
                assert(ps.take(ps.len() as int) =~= ps);
            }
            return false;
        }
        k = k + 1;
    }
    assert(ps.take(ps.len() as int) =~= ps);
    true
}

/// A list whose first `k` pieces fail the check fails it, pieces no longer
/// than the bound.
proof fn lemma_pieces_prefix_fail(ps: Seq<Seq<char>>, bound: nat, k: int)
    requires
        0 < k <= ps.len(),
        forall|m: int| 0 <= m < ps.len() ==> (#[trigger] ps[m]).len() <= bound,
        !pieces_no_lone_quote(ps.take(k), bound),
    ensures
        !pieces_no_lone_quote(ps.take(ps.len() as int), bound),
    decreases ps.len() - k,
{
    if k < ps.len() {
        assert(ps.take(k + 1).drop_last() =~= ps.take(k));
        assert(ps.take(k + 1).last() == ps[k]);
        lemma_pieces_prefix_fail(ps, bound, k + 1);
    }
}

// ==================== Numbers ====================

fn all_digits_exec(d: &[char]) -> (r: bool)
    ensures
        r == forall|i: int| 0 <= i < d@.len() ==> is_digit(#[trigger] d@[i]),
{
    let mut i: usize = 0;
    while i < d.len()
        invariant
            0 <= i <= d@.len(),
            forall|k: int| 0 <= k < i ==> is_digit(#[trigger] d@[k]),
        decreases d@.len() - i,
    {
        if !('0' <= d[i] && d[i] <= '9') {
            return false;
        }
        i = i + 1;
    }
    true
}

fn mantissa_exec(m: &[char]) -> (r: bool)
    ensures
        r == mantissa_ok(m@),
{
    let mut dots: usize = 0;
    let mut digits: usize = 0;
    let mut i: usize = 0;
    while i < m.len()
        invariant
            0 <= i <= m@.len(),
            dots <= 1,
            digits <= i,
            forall|k: int| 0 <= k < i ==> is_digit(#[trigger] m@[k]) || m@[k] == '.',
            forall|a: int, b: int| 0 <= a < b < i && #[trigger] m@[a] == '.' ==> #[trigger] m@[b] != '.',
            dots == 1 <==> exists|k: int| 0 <= k < i && #[trigger] m@[k] == '.',
            digits > 0 <==> exists|k: int| 0 <= k < i && is_digit(#[trigger] m@[k]),
        decreases m@.len() - i,
    {
        let c = m[i];
        if '0' <= c && c <= '9' {
            digits = digits + 1;
        } else if c == '.' {
            if dots == 1 {
                assert(!mantissa_ok(m@)) by {
                    let k = choose|k: int| 0 <= k < i && #[trigger] m@[k] == '.';
                    assert(m@[k] == '.' && m@[i as int] == '.');
                }
                return false;
            }
            dots = 1;
        } else {
            assert(!(is_digit(m@[i as int]) || m@[i as int] == '.'));
            return false;
        }
        i = i + 1;
    }
    digits > 0
}

fn exponent_exec(x: &[char]) -> (r: bool)
    ensures
        r == exponent_ok(x@),
{
    let start: usize = if x.len() > 0 && (x[0] == '+' || x[0] == '-') {
        1
    } else {
        0
    };
    let d = slice_chars(x, start, x.len());
    assert(d@ =~= unsigned_part(x@));
    d.len() > 0 && all_digits_exec(d.as_slice())
}

fn lower_is_exec(t: &[char], w: &str) -> (r: bool)
    ensures
        r == lower_is(t@, w@),
{
    let wv = chars_of(w);
    if t.len() != wv.len() {
        return false;
    }
    let mut i: usize = 0;
    while i < t.len()
        invariant
            0 <= i <= t@.len(),
            t@.len() == wv@.len(),
            wv@ == w@,
            forall|k: int| 0 <= k < i ==> crate::text::ascii_lower(#[trigger] t@[k]) == wv@[k],
        decreases t@.len() - i,
    {
        if crate::text::to_ascii_lower(t[i]) != wv[i] {
            return false;
        }
        i = i + 1;
    }
    true
}

/// Whether a text is a number that `f64::from_str` reads.
pub fn is_number_text(v: &[char]) -> (r: bool)
    ensures
        r == number_text(v@),
{
    let start: usize = if v.len() > 0 && (v[0] == '+' || v[0] == '-') {
        1
    } else {
        0
    };
    let t = slice_chars(v, start, v.len());
    assert(t@ =~= unsigned_part(v@));
    let ts = t.as_slice();
    if lower_is_exec(ts, "inf") || lower_is_exec(ts, "infinity") || lower_is_exec(ts, "nan")
        || mantissa_exec(ts) {
        return true;
    }
    let mut k: usize = 0;
    while k < ts.len() && ts[k] != 'e' && ts[k] != 'E'
        invariant
            0 <= k <= ts@.len(),
            forall|j: int| 0 <= j < k ==> ts@[j] != 'e' && ts@[j] != 'E',
        decreases ts@.len() - k,
    {
        k = k + 1;
    }
    if k == ts.len() {
        return false;
    }
    let m = slice_chars(ts, 0, k);
    let x = slice_chars(ts, k + 1, ts.len());
    assert(m@ =~= ts@.take(k as int));
    assert(x@ =~= ts@.skip(k + 1));
    let ok = mantissa_exec(m.as_slice()) && exponent_exec(x.as_slice());
    proof {
        if !ok {
            assert forall|j: int|
                0 <= j < ts@.len() && ((#[trigger] ts@[j]) == 'e' || ts@[j] == 'E') implies !(mantissa_ok(
                ts@.take(j),
            ) && exponent_ok(ts@.skip(j + 1))) by {
                if j > k {
                    assert(ts@.take(j)[k as int] == ts@[k as int]);
                    assert(!(is_digit(ts@.take(j)[k as int]) || ts@.take(j)[k as int] == '.'));
                }
            }
        }
    }
    ok
}

// ==================== JavaScript text of arguments ====================

/// A name written in capitals, `_` and digits is a constant.
pub open spec fn constant_name(id: Seq<char>) -> bool {
    forall|i: int| 0 <= i < id.len() ==> unicode_uppercase(#[trigger] id[i]) || id[i] == '_' || is_digit(id[i])
}

/// The JavaScript text of an argument: text quoted (unless it starts with
/// a quote), numbers as the table renders them (as written where it has
/// no entry), arrays bracketed, constants quoted and other names as they
/// stand.
pub open spec fn js_spec(a: ArgModel, numbers: Map<Seq<char>, Seq<char>>) -> Seq<char>
    decreases a,
{
    match a {
        ArgModel::Str(s) => if has_prefix(s, "\""@) || has_prefix(s, "'"@) {
            s
        } else {
            "\""@ + s + "\""@
        },
        ArgModel::Number(tok) => if numbers.contains_key(tok) {
            numbers[tok]
        } else {
            tok
        },
        ArgModel::Boolean(b) => if b {
            "true"@
        } else {
            "false"@
        },
        ArgModel::Array(items) => {
            proof {
                assert(decreases_to!(a => items));
            }
            "["@ + js_list(items, numbers) + "]"@
        },
        ArgModel::Identifier(id) => if constant_name(id) {
            "\""@ + id + "\""@
        } else {
            id
        },
    }
}

/// The JavaScript texts of arguments, joined by `, `.
pub open spec fn js_list(items: Seq<ArgModel>, numbers: Map<Seq<char>, Seq<char>>) -> Seq<char>
    decreases items,
{
    if items.len() == 0 {
        Seq::empty()
    } else {
        proof {
            assert(decreases_to!(items => items[items.len() - 1]));
            assert(decreases_to!(items => items.subrange(0, items.len() - 1)));
        }
        if items.len() == 1 {
            js_spec(items[0], numbers)
        } else {
            js_list(items.drop_last(), numbers) + ", "@ + js_spec(items.last(), numbers)
        }
    }
}

/// The number tokens of an argument, in order.
pub open spec fn arg_tokens(a: ArgModel) -> Seq<Seq<char>>
    decreases a,
{
    match a {
        ArgModel::Number(tok) => seq![tok],
        ArgModel::Array(items) => {
            proof {
                assert(decreases_to!(a => items));
            }
            list_tokens(items)
        },
        _ => Seq::empty(),
    }
}

/// The number tokens of arguments, in order.
pub open spec fn list_tokens(items: Seq<ArgModel>) -> Seq<Seq<char>>
    decreases items,
{
    if items.len() == 0 {
        Seq::empty()
    } else {
        proof {
            assert(decreases_to!(items => items[items.len() - 1]));
            assert(decreases_to!(items => items.subrange(0, items.len() - 1)));
        }
        list_tokens(items.drop_last()) + arg_tokens(items.last())
    }
}

fn is_constant_name(id: &[char]) -> (r: bool)
    ensures
        r == constant_name(id@),
{
    let mut i: usize = 0;
    while i < id.len()
        invariant
            0 <= i <= id@.len(),
            forall|k: int| 0 <= k < i ==> unicode_uppercase(#[trigger] id@[k]) || id@[k] == '_' || is_digit(id@[k]),
        decreases id@.len() - i,
    {
        let c = id[i];
        if !(is_uppercase(c) || c == '_' || ('0' <= c && c <= '9')) {
            return false;
        }
        i = i + 1;
    }
    true
}

impl NefuArg {
    /// The JavaScript text of the argument; numbers are written as
    /// `numbers` renders them (as written where it has no entry).
    pub fn to_js_string(&self, numbers: &Vec<(String, String)>) -> (r: String)
        ensures
            r@ == js_spec(arg_view(*self), map_of(numbers@)),
        decreases *self,
    {
        proof {
            reveal_strlit("\"");
            reveal_strlit("'");
        }
        match self {
            NefuArg::String(s) => {
                let v = chars_of(s.as_str());
                if starts_with_str(v.as_slice(), "\"") || starts_with_str(v.as_slice(), "'") {
                    owned(s.as_str())
                } else {
                    let mut o = chars_of("\"");
                    push_str(&mut o, s.as_str());
                    push_str(&mut o, "\"");
                    string_from(o.as_slice())
                }
            },
            NefuArg::Number(tok) => match kv_get(numbers, tok.as_str()) {
                Some(t) => owned(t.as_str()),
                None => owned(tok.as_str()),
            },
            NefuArg::Boolean(b) => if *b {
                owned("true")
            } else {
                owned("false")
            },
            NefuArg::Array(items) => {
                let mut o = chars_of("[");
                let ghost start = o@;
                let ghost whole = *self;
                let mut i: usize = 0;
                proof {
                    lemma_args_view_len(items@);
                }
                while i < items.len()
                    invariant
                        0 <= i <= items@.len(),
                        args_view(items@).len() == items@.len(),
                        o@ == start + js_list(args_view(items@).take(i as int), map_of(numbers@)),
                        start == "["@,
                        whole == *self,
                        whole is Array,
                        whole->Array_0 == *items,
                    decreases items@.len() - i,
                {
                    proof {
                        assert(decreases_to!(whole => whole->Array_0));
                        assert(decreases_to!(whole->Array_0 => whole->Array_0@));
                        assert(decreases_to!(whole->Array_0@ => whole->Array_0@[i as int]));
                        assert(args_view(items@.take(i + 1)) == args_view(items@.take(i as int)).push(
                            arg_view(items@[i as int]),
                        )) by {
                            assert(items@.take(i + 1).drop_last() =~= items@.take(i as int));
                        }
                        lemma_args_view_take(items@, i as int);
                        lemma_args_view_take(items@, i + 1);
                    }
                    let t = items[i].to_js_string(numbers);
                    let ghost pre = args_view(items@).take(i as int);
                    let ghost next = args_view(items@).take(i + 1);
                    proof {
                        assert(next =~= pre.push(arg_view(items@[i as int])));
                        assert(next.drop_last() =~= pre);
                    }
                    if i > 0 {
                        push_str(&mut o, ", ");
                    }
                    push_str(&mut o, t.as_str());
                    i = i + 1;
                }
                assert(args_view(items@).take(items@.len() as int) =~= args_view(items@));
                push_str(&mut o, "]");
                string_from(o.as_slice())
            },
            NefuArg::Identifier(id) => {
                let v = chars_of(id.as_str());
                if is_constant_name(v.as_slice()) {
                    let mut o = chars_of("\"");
                    push_str(&mut o, id.as_str());
                    push_str(&mut o, "\"");
                    string_from(o.as_slice())
                } else {
                    owned(id.as_str())
                }
            },
        }
    }
}

pub proof fn lemma_args_view_take(v: Seq<NefuArg>, i: int)
    requires
        0 <= i <= v.len(),
    ensures
        args_view(v.take(i)) == args_view(v).take(i),
    decreases v.len(),
{
    lemma_args_view_len(v);
    lemma_args_view_len(v.take(i));
    if i < v.len() {
        assert(v.drop_last().take(i) =~= v.take(i));
        lemma_args_view_take(v.drop_last(), i);
        lemma_args_view_len(v.drop_last());
        assert(args_view(v).take(i) =~= args_view(v.drop_last()).take(i));
    } else {
        assert(v.take(i) =~= v);
        assert(args_view(v).take(i) =~= args_view(v));
    }
}

// ==================== Calls ====================

/// Where the parenthesis opened before `s` closes, searching from `i` at
/// depth `depth`: every `(` opens one more and every `)` closes one.
pub open spec fn close_index(s: Seq<char>, i: int, depth: int) -> Option<int>
    decreases s.len() - i,
{
    if i < 0 || i >= s.len() {
        None
    } else if s[i] == '(' {
        close_index(s, i + 1, depth + 1)
    } else if s[i] == ')' {
        if depth == 1 {
            Some(i)
        } else {
            close_index(s, i + 1, depth - 1)
        }
    } else {
        close_index(s, i + 1, depth)
    }
}

pub proof fn lemma_close_index(s: Seq<char>, i: int, depth: int)
    requires
        0 <= i,
    ensures
        close_index(s, i, depth) matches Some(e) ==> i <= e < s.len(),
    decreases s.len() - i,
{
    if 0 <= i < s.len() {
        if s[i] == '(' {
            lemma_close_index(s, i + 1, depth + 1);
        } else if s[i] == ')' {
            if depth != 1 {
                lemma_close_index(s, i + 1, depth - 1);
            }
        } else {
            lemma_close_index(s, i + 1, depth);
        }
    }
}

/// The text between a call's parentheses, where the line is a call whose
/// parentheses close.
pub open spec fn call_inner(line: Seq<char>) -> Option<Seq<char>> {
    let t = trim_spec(line);
    if !has_prefix(t, "nefu("@) {
        None
    } else {
        match close_index(t.skip(5), 0, 1) {
            Some(e) => Some(t.skip(5).take(e)),
            None => None,
        }
    }
}

/// The JavaScript of a `nefu(method, args...)` line:
/// `await nefu.invoke(...)` with the arguments' JavaScript texts, or why
/// the line is refused (an argument that is a lone quote among the
/// reasons).
pub open spec fn call_spec(line: Seq<char>, numbers: Map<Seq<char>, Seq<char>>) -> Result<Seq<char>, NcFailure> {
    let t = trim_spec(line);
    if !has_prefix(t, "nefu("@) {
        Err(NcFailure::InvalidCall(line))
    } else {
        match call_inner(line) {
            None => Err(NcFailure::UnbalancedCall(line)),
            Some(inner) => if inner.len() == 0 {
                Err(NcFailure::MissingArguments(line))
            } else if !args_no_lone_quote(inner) {
                Err(NcFailure::LoneQuote(line))
            } else {
                Ok("await nefu.invoke("@ + js_list(parse_args_spec(inner), numbers) + ")"@)
            },
        }
    }
}

/// The number tokens of a call line's arguments.
pub open spec fn call_tokens(line: Seq<char>) -> Seq<Seq<char>> {
    match call_inner(line) {
        Some(inner) => list_tokens(parse_args_spec(inner)),
        None => Seq::empty(),
    }
}

fn call_inner_exec(line: &str) -> (r: Option<Vec<char>>)
    ensures
        match r {
            Some(v) => call_inner(line@) == Some(v@),
            None => call_inner(line@) is None,
        },
{
    proof {
        reveal_strlit("nefu(");
    }
    let w = chars_of(line);
    let t = trim(w.as_slice());
    if !starts_with_str(t.as_slice(), "nefu(") {
        return None;
    }
    let n = t.len();
    let s = slice_chars(t.as_slice(), 5, n);
    assert(s@ =~= t@.skip(5));
    let mut depth: usize = 1;
    let mut i: usize = 0;
    while i < s.len()
        invariant
            0 <= i <= s@.len(),
            1 <= depth <= i + 1,
            s@.len() + 5 == n,
            s@ == trim_spec(line@).skip(5),
            t@ == trim_spec(line@),
            has_prefix(t@, "nefu("@),
            close_index(s@, 0, 1) == close_index(s@, i as int, depth as int),
        decreases s@.len() - i,
    {
        if s[i] == '(' {
            depth = depth + 1;
        } else if s[i] == ')' {
            if depth == 1 {
                return Some(slice_chars(s.as_slice(), 0, i));
            }
            depth = depth - 1;
        }
        i = i + 1;
    }
    None
}

/// Turns a `nefu(method, args...)` line into its JavaScript call.
pub fn parse_nefu_call(line: &str, numbers: &Vec<(String, String)>) -> (r: Result<String, NcError>)
    ensures
        match call_spec(line@, map_of(numbers@)) {
            Ok(js) => r is Ok && r->Ok_0@ == js,
            Err(f) => r is Err && r->Err_0@ == f,
        },
{
    let w = chars_of(line);
    let t = trim(w.as_slice());
    if !starts_with_str(t.as_slice(), "nefu(") {
        return Err(NcError::InvalidCall(owned(line)));
    }
    let inner = match call_inner_exec(line) {
        Some(v) => v,
        None => return Err(NcError::UnbalancedCall(owned(line))),
    };
    if inner.len() == 0 {
        return Err(NcError::MissingArguments(owned(line)));
    }
    if !args_no_lone_quote_exec(inner.as_slice()) {
        return Err(NcError::LoneQuote(owned(line)));
    }
    let inner_text = string_from(inner.as_slice());
    let args = parse_nefu_args(inner_text.as_str());
    let mut out = chars_of("await nefu.invoke(");
    let ghost start = out@;
    let mut i: usize = 0;
    proof {
        lemma_args_view_len(args@);
    }
    while i < args.len()
        invariant
            0 <= i <= args@.len(),
            args_view(args@).len() == args@.len(),
            args_view(args@) == parse_args_spec(inner@),
            out@ == start + js_list(args_view(args@).take(i as int), map_of(numbers@)),
        decreases args@.len() - i,
    {
        let js = args[i].to_js_string(numbers);
        let ghost pre = args_view(args@).take(i as int);
        let ghost next = args_view(args@).take(i + 1);
        proof {
            assert(next.drop_last() =~= pre);
            assert(next.last() == args_view(args@)[i as int]);
            lemma_args_view_take(args@, i + 1);
            assert(args@.take(i + 1).last() == args@[i as int]);
            assert(args_view(args@.take(i + 1)).last() == arg_view(args@[i as int]));
        }
        if i > 0 {
            push_str(&mut out, ", ");
        }
        push_str(&mut out, js.as_str());
        i = i + 1;
    }
    assert(args_view(args@).take(args@.len() as int) =~= args_view(args@));
    push_str(&mut out, ")");
    Ok(string_from(out.as_slice()))
}

// ==================== Scripts ====================

/// The lines of a text, trimmed, blank ones dropped.
pub open spec fn clean_lines(ps: Seq<Seq<char>>) -> Seq<Seq<char>>
    decreases ps.len(),
{
    if ps.len() == 0 {
        Seq::empty()
    } else if trim_spec(ps.last()).len() > 0 {
        clean_lines(ps.drop_last()).push(trim_spec(ps.last()))
    } else {
        clean_lines(ps.drop_last())
    }
}

/// The lines of a script, after its comments are removed.
pub open spec fn script_lines(content: Seq<char>) -> Seq<Seq<char>> {
    clean_lines(split_spec(strip_comments(content), '\n'))
}

/// `s` without trailing `c` characters.
pub open spec fn strip_trailing(s: Seq<char>, c: char) -> Seq<char>
    decreases s.len(),
{
    if s.len() > 0 && s.last() == c {
        strip_trailing(s.drop_last(), c)
    } else {
        s
    }
}

/// The state of a script read so far: the imported modules, whether `main`
/// is open, the script lines and the number tokens of the calls.
pub struct ScriptState {
    pub imports: Seq<Seq<char>>,
    pub in_main: bool,
    pub js: Seq<Seq<char>>,
    pub tokens: Seq<Seq<char>>,
}

/// A script before its first line.
pub open spec fn script_start() -> ScriptState {
    ScriptState { imports: Seq::empty(), in_main: false, js: Seq::empty(), tokens: Seq::empty() }
}

/// The script line of a call.
pub open spec fn call_line(js: Seq<char>) -> Seq<char> {
    "  try { "@ + js + " } catch(e) { console.error('nefu call failed:', e); }"@
}

/// One line of a script: `import<m>` records `m`; `main"` or `main'` opens
/// `main`; `end(` closes it; inside `main`, a `nefu(` line becomes a call
/// and any other line is kept, indented.
pub open spec fn script_step(st: ScriptState, line: Seq<char>, numbers: Map<Seq<char>, Seq<char>>) -> Result<ScriptState, NcFailure> {
    if has_prefix(line, "import<"@) {
        Ok(ScriptState { imports: st.imports.push(trim_spec(strip_trailing(line.skip(7), '>'))), ..st })
    } else if has_prefix(line, "main\""@) || has_prefix(line, "main'"@) {
        Ok(ScriptState { in_main: true, js: st.js.push("// main function"@).push("(async () => {"@), ..st })
    } else if has_prefix(line, "end("@) {
        if st.in_main {
            Ok(ScriptState { in_main: false, js: st.js.push("})();"@), ..st })
        } else {
            Ok(st)
        }
    } else if st.in_main && has_prefix(line, "nefu("@) {
        match call_spec(line, numbers) {
            Ok(js) => Ok(ScriptState { js: st.js.push(call_line(js)), tokens: st.tokens + call_tokens(line), ..st }),
            Err(f) => Err(f),
        }
    } else if st.in_main && line.len() > 0 {
        Ok(ScriptState { js: st.js.push("  "@ + line), ..st })
    } else {
        Ok(st)
    }
}

/// The state after all the lines, or the first error.
pub open spec fn script_run(lines: Seq<Seq<char>>, numbers: Map<Seq<char>, Seq<char>>) -> Result<ScriptState, NcFailure>
    decreases lines.len(),
{
    if lines.len() == 0 {
        Ok(script_start())
    } else {
        match script_run(lines.drop_last(), numbers) {
            Ok(st) => script_step(st, lines.last(), numbers),
            Err(f) => Err(f),
        }
    }
}

/// The page text before the title.
pub const SCRIPT_PAGE_HEAD: &'static str = "<!DOCTYPE html>
<html lang=\"zh-CN\">
<head>
    <meta charset=\"UTF-8\">
    <meta name=\"viewport\" content=\"width=device-width, initial-scale=1.0\">
    <title>";

/// The page text between the title and the script.
pub const SCRIPT_PAGE_MIDDLE: &'static str = "</title>
    <link rel=\"stylesheet\" href=\"https://cdn.jsdelivr.net/npm/bootstrap@5.3.0/dist/css/bootstrap.min.css\">
    <link rel=\"stylesheet\" href=\"https://cdnjs.cloudflare.com/ajax/libs/font-awesome/6.5.0/css/all.min.css\">
    <link href=\"https://fonts.googleapis.com/css2?family=Inter:wght@300;400;500;600;700&display=swap\" rel=\"stylesheet\">
    <style>
        * { margin: 0; padding: 0; box-sizing: border-box; }
        body { font-family: 'Inter', -apple-system, sans-serif; background: #f5f5f5; color: #333; }
        #app { min-height: 100vh; display: flex; flex-direction: column; }
    </style>
</head>
<body>
    <div id=\"app\">
        <div id=\"nefu-content\"></div>
    </div>
    <script src=\"https://cdn.jsdelivr.net/npm/bootstrap@5.3.0/dist/js/bootstrap.bundle.min.js\"></script>
    <script>
";

/// The page text after the script.
pub const SCRIPT_PAGE_TAIL: &'static str = "
    </script>
</body>
</html>";

/// The page of a script whose lines were read into `st`: `main` is closed
/// if it was left open, and the title is the first import (`Nefu App`
/// without one).
pub open spec fn script_page_text(st: ScriptState) -> Seq<char> {
    let js = if st.in_main {
        st.js.push("})();"@)
    } else {
        st.js
    };
    let title = if st.imports.len() > 0 {
        st.imports[0]
    } else {
        "Nefu App"@
    };
    SCRIPT_PAGE_HEAD@ + title + SCRIPT_PAGE_MIDDLE@ + join_spec(js, "\n"@) + SCRIPT_PAGE_TAIL@
}

/// The page of a script, or the first error.
pub open spec fn script_page(content: Seq<char>, numbers: Map<Seq<char>, Seq<char>>) -> Result<Seq<char>, NcFailure> {
    match script_run(script_lines(content), numbers) {
        Ok(st) => Ok(script_page_text(st)),
        Err(f) => Err(f),
    }
}

pub proof fn lemma_run_persists(lines: Seq<Seq<char>>, numbers: Map<Seq<char>, Seq<char>>, i: int)
    requires
        0 <= i <= lines.len(),
    ensures
        script_run(lines.take(i), numbers) is Err ==> script_run(lines, numbers) == script_run(lines.take(i), numbers),
    decreases lines.len() - i,
{
    if i < lines.len() {
        lemma_run_persists(lines, numbers, i + 1);
        assert(lines.take(i + 1).drop_last() =~= lines.take(i));
    } else {
        assert(lines.take(i) =~= lines);
    }
}

fn clean_lines_exec(raw: &Vec<Vec<char>>) -> (r: Vec<Vec<char>>)
    ensures
        views(r@) == clean_lines(views(raw@)),
{
    let mut out: Vec<Vec<char>> = Vec::new();
    let mut i: usize = 0;
    while i < raw.len()
        invariant
            0 <= i <= raw@.len(),
            views(out@) == clean_lines(views(raw@).take(i as int)),
        decreases raw@.len() - i,
    {
        let t = trim(raw[i].as_slice());
        proof {
            assert(views(raw@).take(i + 1).drop_last() =~= views(raw@).take(i as int));
            assert(views(raw@).take(i + 1).last() == raw@[i as int]@);
        }
        if t.len() > 0 {
            let ghost before = views(out@);
            out.push(t);
            assert(views(out@) =~= before.push(t@));
        }
        i = i + 1;
    }
    assert(views(raw@).take(raw@.len() as int) =~= views(raw@));
    out
}

fn script_lines_exec(content: &str) -> (r: Vec<Vec<char>>)
    ensures
        views(r@) == script_lines(content@),
{
    let cleaned = remove_comments(content);
    let cv = chars_of(cleaned.as_str());
    let raw = split_char(cv.as_slice(), '\n');
    clean_lines_exec(&raw)
}

fn strip_trailing_exec(s: &[char], c: char) -> (r: Vec<char>)
    ensures
        r@ == strip_trailing(s@, c),
{
    let mut n = s.len();
    assert(s@.take(n as int) =~= s@);
    while n > 0 && s[n - 1] == c
        invariant
            n <= s@.len(),
            strip_trailing(s@.take(n as int), c) == strip_trailing(s@, c),
        decreases n,
    {
        assert(s@.take(n as int).drop_last() =~= s@.take(n - 1));
        n = n - 1;
    }
    slice_chars(s, 0, n)
}

/// Compiles a script into its page: the script lines of `main` (each call
/// turned into `await nefu.invoke(...)` inside `try`) in a page titled by
/// the first import. Numbers in calls are written as `numbers` renders
/// them.
pub fn parse_new_syntax(content: &str, numbers: &Vec<(String, String)>) -> (r: Result<String, NcError>)
    ensures
        match script_page(content@, map_of(numbers@)) {
            Ok(p) => r is Ok && r->Ok_0@ == p,
            Err(f) => r is Err && r->Err_0@ == f,
        },
{
    proof {
        reveal_strlit("import<");
        reveal_strlit("main\"");
        reveal_strlit("main'");
        reveal_strlit("end(");
        reveal_strlit("nefu(");
    }
    let lines = script_lines_exec(content);
    let ghost all = views(lines@);
    let ghost nums = map_of(numbers@);
    let mut imports: Vec<Vec<char>> = Vec::new();
    let mut in_main = false;
    let mut js: Vec<Vec<char>> = Vec::new();
    let mut i: usize = 0;
    assert(all.take(0) =~= Seq::<Seq<char>>::empty());
    while i < lines.len()
        invariant
            0 <= i <= lines@.len(),
            all == views(lines@),
            all == script_lines(content@),
            nums == map_of(numbers@),
            script_run(all.take(i as int), nums) matches Ok(st) && st.imports == views(imports@)
                && st.in_main == in_main && st.js == views(js@),
        decreases lines@.len() - i,
    {
        let line = lines[i].as_slice();
        let ghost st = script_run(all.take(i as int), nums)->Ok_0;
        proof {
            assert(all.take(i + 1).drop_last() =~= all.take(i as int));
            assert(all.take(i + 1).last() == line@);
            lemma_run_persists(all, nums, i + 1);
        }
        if starts_with_str(line, "import<") {
            proof {
                reveal_strlit("import<");
            }
            let rest = slice_chars(line, 7, line.len());
            assert(rest@ =~= line@.skip(7));
            let m = strip_trailing_exec(rest.as_slice(), '>');
            let ghost before = views(imports@);
            imports.push(trim(m.as_slice()));
            assert(views(imports@) =~= before.push(trim_spec(strip_trailing(line@.skip(7), '>'))));
        } else if starts_with_str(line, "main\"") || starts_with_str(line, "main'") {
            in_main = true;
            let ghost before = views(js@);
            js.push(chars_of("// main function"));
            js.push(chars_of("(async () => {"));
            assert(views(js@) =~= before.push("// main function"@).push("(async () => {"@));
        } else if starts_with_str(line, "end(") {
            if in_main {
                let ghost before = views(js@);
                js.push(chars_of("})();"));
                assert(views(js@) =~= before.push("})();"@));
                in_main = false;
            }
        } else if in_main && starts_with_str(line, "nefu(") {
            let ls = string_from(line);
            let call = match parse_nefu_call(ls.as_str(), numbers) {
                Ok(c) => c,
                Err(e) => {
                    return Err(e);
                },
            };
            let mut l = chars_of("  try { ");
            push_str(&mut l, call.as_str());
            push_str(&mut l, " } catch(e) { console.error('nefu call failed:', e); }");
            let ghost before = views(js@);
            js.push(l);
            assert(views(js@) =~= before.push(call_line(call@)));
        } else if in_main && line.len() > 0 {
            let mut l = chars_of("  ");
            push_all(&mut l, line);
            let ghost before = views(js@);
            js.push(l);
            assert(views(js@) =~= before.push("  "@ + line@));
        }
        i = i + 1;
    }
    assert(all.take(lines@.len() as int) =~= all);
    if in_main {
        let ghost before = views(js@);
        js.push(chars_of("})();"));
        assert(views(js@) =~= before.push("})();"@));
    }
    let mut page = chars_of(SCRIPT_PAGE_HEAD);
    if imports.len() > 0 {
        push_all(&mut page, imports[0].as_slice());
    } else {
        push_str(&mut page, "Nefu App");
    }
    push_str(&mut page, SCRIPT_PAGE_MIDDLE);
    let nl = chars_of("\n");
    let code = join(&js, nl.as_slice());
    push_all(&mut page, code.as_slice());
    push_str(&mut page, SCRIPT_PAGE_TAIL);
    Ok(string_from(page.as_slice()))
}

/// The number tokens of a script's calls, up to its first error: the texts
/// whose JavaScript rendering `parse_new_syntax` takes from its table.
pub open spec fn script_tokens(content: Seq<char>) -> Seq<Seq<char>> {
    match script_run(script_lines(content), Map::empty()) {
        Ok(st) => st.tokens,
        Err(_) => Seq::empty(),
    }
}

/// The texts of strings, in order.
pub open spec fn string_views(v: Seq<String>) -> Seq<Seq<char>> {
    v.map_values(|x: String| x@)
}

fn push_arg_tokens(a: &NefuArg, out: &mut Vec<String>)
    ensures
        string_views(final(out)@) == string_views(old(out)@) + arg_tokens(arg_view(*a)),
    decreases *a,
{
    match a {
        NefuArg::Number(tok) => {
            let ghost before = string_views(out@);
            out.push(owned(tok.as_str()));
            assert(string_views(out@) =~= before + seq![tok@]);
        },
        NefuArg::Array(items) => {
            let ghost whole = *a;
            let ghost start = string_views(out@);
            let mut i: usize = 0;
            proof {
                lemma_args_view_len(items@);
            }
            while i < items.len()
                invariant
                    0 <= i <= items@.len(),
                    args_view(items@).len() == items@.len(),
                    string_views(out@) == start + list_tokens(args_view(items@).take(i as int)),
                    whole == *a,
                    whole is Array,
                    whole->Array_0 == *items,
                decreases items@.len() - i,
            {
                proof {
                    assert(decreases_to!(whole => whole->Array_0));
                    assert(decreases_to!(whole->Array_0 => whole->Array_0@));
                    assert(decreases_to!(whole->Array_0@ => whole->Array_0@[i as int]));
                    lemma_args_view_take(items@, i + 1);
                    assert(items@.take(i + 1).last() == items@[i as int]);
                    assert(args_view(items@).take(i + 1).drop_last() =~= args_view(items@).take(i as int));
                }
                push_arg_tokens(&items[i], out);
                proof {
                    assert(args_view(items@).take(i + 1).last() == arg_view(items@[i as int]));
                }
                i = i + 1;
            }
            assert(args_view(items@).take(items@.len() as int) =~= args_view(items@));
        },
        _ => {
            assert(string_views(out@) =~= string_views(out@) + Seq::<Seq<char>>::empty());
        },
    }
}

/// The number tokens of a script's calls, up to its first error (none
/// where the script has one): the texts whose JavaScript rendering the
/// page takes from its number table.
pub fn numeric_tokens(content: &str) -> (r: Vec<String>)
    ensures
        string_views(r@) == script_tokens(content@),
{
    let empty: Vec<(String, String)> = Vec::new();
    let lines = script_lines_exec(content);
    let ghost all = views(lines@);
    let ghost nums = Map::<Seq<char>, Seq<char>>::empty();
    assert(map_of(empty@) =~= nums);
    let mut in_main = false;
    let mut tokens: Vec<String> = Vec::new();
    let mut i: usize = 0;
    assert(all.take(0) =~= Seq::<Seq<char>>::empty());
    assert(string_views(tokens@) =~= Seq::<Seq<char>>::empty());
    while i < lines.len()
        invariant
            0 <= i <= lines@.len(),
            all == views(lines@),
            all == script_lines(content@),
            nums == Map::<Seq<char>, Seq<char>>::empty(),
            map_of(empty@) == nums,
            script_run(all.take(i as int), nums) matches Ok(st) && st.in_main == in_main
                && st.tokens == string_views(tokens@),
        decreases lines@.len() - i,
    {
        let line = lines[i].as_slice();
        proof {
            assert(all.take(i + 1).drop_last() =~= all.take(i as int));
            assert(all.take(i + 1).last() == line@);
            lemma_run_persists(all, nums, i + 1);
        }
        if starts_with_str(line, "import<") {
        } else if starts_with_str(line, "main\"") || starts_with_str(line, "main'") {
            in_main = true;
        } else if starts_with_str(line, "end(") {
            in_main = false;
        } else if in_main && starts_with_str(line, "nefu(") {
            let ls = string_from(line);
            match parse_nefu_call(ls.as_str(), &empty) {
                Ok(_) => {},
                Err(_) => {
                    proof {
                        assert(script_run(all, nums) is Err);
                    }
                    return Vec::new();
                },
            }
            let inner = match call_inner_exec(ls.as_str()) {
                Some(v) => v,
                None => {
                    return Vec::new();
                },
            };
            let inner_text = string_from(inner.as_slice());
            let args = parse_nefu_args(inner_text.as_str());
            let ghost start = string_views(tokens@);
            let mut k: usize = 0;
            proof {
                lemma_args_view_len(args@);
            }
            while k < args.len()
                invariant
                    0 <= k <= args@.len(),
                    args_view(args@).len() == args@.len(),
                    string_views(tokens@) == start + list_tokens(args_view(args@).take(k as int)),
                decreases args@.len() - k,
            {
                proof {
                    lemma_args_view_take(args@, k + 1);
                    assert(args@.take(k + 1).last() == args@[k as int]);
                    assert(args_view(args@).take(k + 1).drop_last() =~= args_view(args@).take(k as int));
                    assert(args_view(args@).take(k + 1).last() == arg_view(args@[k as int]));
                }
                push_arg_tokens(&args[k], &mut tokens);
                proof {
                    assert(start + list_tokens(args_view(args@).take(k + 1)) =~= start + list_tokens(
                        args_view(args@).take(k as int),
                    ) + arg_tokens(arg_view(args@[k as int])));
                }
                k = k + 1;
            }
            assert(args_view(args@).take(args@.len() as int) =~= args_view(args@));
        }
        i = i + 1;
    }
    assert(all.take(lines@.len() as int) =~= all);
    tokens
}

// ==================== Files ====================

/// The page of an `.nc` file: after trimming, the script syntax where the
/// text starts like a script, else the JSON syntax. Numbers in calls are
/// written as `numbers` renders them, progress percentages taken from
/// `percents`.
pub open spec fn nc_page(
    content: Seq<char>,
    numbers: Map<Seq<char>, Seq<char>>,
    percents: Seq<(Seq<char>, Seq<char>, u32)>,
) -> Result<Seq<char>, NcFailure> {
    let t = trim_spec(content);
    if is_new_syntax_spec(t) {
        script_page(t, numbers)
    } else {
        crate::nc_render::old_syntax_spec(t, percents)
    }
}

/// Compiles an `.nc` file into its HTML page.
pub fn parse_nc_to_html(
    nc_content: &str,
    numbers: &Vec<(String, String)>,
    percents: &Vec<(String, String, u32)>,
) -> (r: Result<String, NcError>)
    ensures
        match nc_page(nc_content@, map_of(numbers@), crate::nc_render::percents_view(percents@)) {
            Ok(p) => r is Ok && r->Ok_0@ == p,
            Err(f) => r is Err && r->Err_0@ == f,
        },
{
    let v = chars_of(nc_content);
    let t = trim(v.as_slice());
    let trimmed = string_from(t.as_slice());
    if is_new_syntax(trimmed.as_str()) {
        parse_new_syntax(trimmed.as_str(), numbers)
    } else {
        crate::nc_render::parse_old_syntax(trimmed.as_str(), percents)
    }
}

/// The number tokens whose JavaScript texts a file's page takes from its
/// number table: those of the script's calls, or none for the JSON
/// syntax.
pub fn nc_number_tokens(nc_content: &str) -> (r: Vec<String>)
    ensures
        string_views(r@) == if is_new_syntax_spec(trim_spec(nc_content@)) {
            script_tokens(trim_spec(nc_content@))
        } else {
            Seq::empty()
        },
{
    let v = chars_of(nc_content);
    let t = trim(v.as_slice());
    let trimmed = string_from(t.as_slice());
    if is_new_syntax(trimmed.as_str()) {
        numeric_tokens(trimmed.as_str())
    } else {
        let r: Vec<String> = Vec::new();
        assert(string_views(r@) =~= Seq::<Seq<char>>::empty());
        r
    }
}

} // verus!
