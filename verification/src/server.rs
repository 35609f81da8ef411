//! Development server logic: request paths, the hot reload script, the
//! pages it serves, the WebSocket handshake key and frames, and the choice
//! of what a request is answered with. Sockets, files and the watcher are
//! driven by the application around it.

use vstd::prelude::*;
use crate::config::{join_path, path_join_spec, NefuConfig};
use crate::config_file::opt_string_view;
use crate::crypto::{base64_encode, base64_spec, sha1, sha1_spec};
use crate::kv::{kv_insert, map_of};
use crate::protocol::{
    after_char, before_char, hex_pair, hex_pair_exec, path_extension, path_extension_spec, split_once,
    strip_leading_slashes, trim_leading_slashes, utf8_bytes,
};
use crate::text::{
    chars_of, decimal, decimal_spec, eq_str, find, lowercase, occurs_at, contains_seq, owned,
    push_all, push_str, replace_spec, replace_str, slice_chars, split_char, split_spec,
    string_from, to_lowercase, utf8_lossy, utf8_lossy_spec, views, ascii_lower, eq_ignore_case,
    eq_ignore_case_exec, to_ascii_lowercase, trim, trim_spec,
};

verus! {

/// The GUID that RFC 6455 appends to a WebSocket key.
pub const WS_GUID: &'static str = "258EAFA5-E914-47DA-95CA-5AB9FC11E97A";

/// The text of the reload script before the port.
pub const RELOAD_SCRIPT_HEAD: &'static str = "
<script>
(function() {
    'use strict';
    const WS_URL = 'ws://127.0.0.1:";

/// The text of the reload script after the port.
pub const RELOAD_SCRIPT_TAIL: &'static str = "/';
    let ws = null;
    let reconnectTimer = null;
    let reconnectDelay = 500;

    function connect() {
        try {
            ws = new WebSocket(WS_URL);
        } catch (e) {
            scheduleReconnect();
            return;
        }

        ws.onopen = function() {
            console.log('[Nefu Dev] hot reload connected');
            if (reconnectTimer) {
                clearTimeout(reconnectTimer);
                reconnectTimer = null;
            }
            reconnectDelay = 500;
        };

        ws.onmessage = function(event) {
            var data;
            try {
                data = JSON.parse(event.data);
            } catch (e) {
                return;
            }
            if (data && data.type === 'reload') {
                console.log('[Nefu Dev] File changed:', data.file || '');
                if (data.file && data.file.split('?')[0].endsWith('.css')) {
                    reloadStylesheets();
                } else {
                    location.reload();
                }
            }
        };

        ws.onclose = function() {
            console.log('[Nefu Dev] connection closed, reconnecting later...');
            scheduleReconnect();
        };

        ws.onerror = function() {
            try { ws.close(); } catch (e) {}
        };
    }

    function scheduleReconnect() {
        if (reconnectTimer) return;
        reconnectTimer = setTimeout(function() {
            reconnectTimer = null;
            reconnectDelay = Math.min(reconnectDelay * 2, 10000);
            connect();
        }, reconnectDelay);
    }

    function reloadStylesheets() {
        var links = document.querySelectorAll('link[rel=\"stylesheet\"]');
        links.forEach(function(link) {
            var href = link.href;
            link.href = '';
            setTimeout(function() {
                link.href = href + (href.indexOf('?') >= 0 ? '&' : '?') + '_t=' + Date.now();
            }, 50);
        });
        console.log('[Nefu Dev] stylesheet refreshed');
    }

    connect();
})();
</script>
";

/// The 404 page before the escaped path.
pub const NOT_FOUND_PAGE_HEAD: &'static str = "<!DOCTYPE html>
<html><head><meta charset=\"utf-8\"><title>404</title>
<style>
body{font-family:sans-serif;display:flex;justify-content:center;align-items:center;height:100vh;margin:0;background:#f5f5f5}
.box{text-align:center;padding:2rem}
h1{font-size:4rem;margin:0;color:#ddd}
p{color:#666}
</style></head>
<body><div class=\"box\"><h1>404</h1><p>File not found: ";

/// The 404 page after the escaped path.
pub const NOT_FOUND_PAGE_TAIL: &'static str = "</p></div></body></html>";

/// The error page before the first status code.
pub const ERROR_PAGE_HEAD: &'static str = "<!DOCTYPE html>
<html><head><meta charset=\"utf-8\"><title>Error ";

/// The error page between the two status codes.
pub const ERROR_PAGE_MIDDLE: &'static str = "</title>
<style>body{font-family:sans-serif;padding:2rem;background:#fff5f5;color:#c00}</style></head>
<body><h1>Error ";

/// The error page between the second status code and the escaped message.
pub const ERROR_PAGE_BEFORE_MESSAGE: &'static str = "</h1><pre>";

/// The error page after the escaped message.
pub const ERROR_PAGE_END: &'static str = "</pre></body></html>";

/// The compile error page before the escaped file name.
pub const NC_ERROR_PAGE_HEAD: &'static str = "<!DOCTYPE html>
<html lang=\"en\"><head><meta charset=\"utf-8\"><title>NC Compile Error</title>
<style>
body{font-family:-apple-system,'Segoe UI',Roboto,sans-serif;margin:0;background:#fff7f7;color:#8a1f11;padding:2rem}
h1{font-size:1.4rem;margin:0 0 .4rem}
code, pre{background:#2b2b2b;color:#f8f8f8;padding:.2em .5em;border-radius:4px}
pre{padding:1rem;overflow:auto;white-space:pre-wrap;word-break:break-all}
.file{color:#555;font-size:.9rem;margin-bottom:1rem}
.hint{color:#555;font-size:.9rem;background:#fff;border:1px solid #ecc;border-radius:6px;padding:1rem;margin-top:1rem}
</style></head>
<body>
<h1>⚠️ NC Compile Error</h1>
<div class=\"file\">File: ";

/// The compile error page between the file name and the escaped message.
pub const NC_ERROR_PAGE_MIDDLE: &'static str = "</div>
<pre>";

/// The compile error page after the escaped message.
pub const NC_ERROR_PAGE_TAIL: &'static str = "</pre>
<div class=\"hint\">💡 Common causes: make sure every node has a <code>component</code> or <code>type</code> field, the JSON syntax is correct,
and the root node is an object (not an array). Save after editing and hot reload will recompile automatically.</div>
<script>setTimeout(function(){ location.reload(); }, 3000);</script>
</body></html>";

// ==================== Escaping and decoding ====================

/// `&`, `<` and `>` escaped, in that order.
pub open spec fn escape_simple_spec(s: Seq<char>) -> Seq<char> {
    replace_spec(replace_spec(replace_spec(s, "&"@, "&amp;"@), "<"@, "&lt;"@), ">"@, "&gt;"@)
}

/// Escapes `&`, `<` and `>` for HTML text.
pub fn html_escape_simple(s: &str) -> (r: String)
    ensures
        r@ == escape_simple_spec(s@),
{
    proof {
        reveal_strlit("&");
        reveal_strlit("<");
        reveal_strlit(">");
    }
    let v = chars_of(s);
    let a = replace_str(v.as_slice(), "&", "&amp;");
    let b = replace_str(a.as_slice(), "<", "&lt;");
    let c = replace_str(b.as_slice(), ">", "&gt;");
    string_from(c.as_slice())
}

/// URL decoding of characters: `%` and the two characters after it, where
/// `u8::from_str_radix` reads them in base 16, become the character with
/// that number; otherwise `%` and the (up to two) characters after it stay
/// as written. `+` becomes a space.
pub open spec fn url_decode_spec(s: Seq<char>) -> Seq<char>
    decreases s.len(),
{
    if s.len() == 0 {
        Seq::empty()
    } else if s[0] == '%' {
        let rest = s.drop_first();
        if rest.len() >= 2 && hex_pair(rest[0], rest[1]) is Some {
            seq![(hex_pair(rest[0], rest[1])->0) as char] + url_decode_spec(rest.skip(2))
        } else {
            let n: int = if rest.len() >= 2 { 2 } else { rest.len() as int };
            seq!['%'] + rest.take(n) + url_decode_spec(rest.skip(n))
        }
    } else if s[0] == '+' {
        seq![' '] + url_decode_spec(s.drop_first())
    } else {
        seq![s[0]] + url_decode_spec(s.drop_first())
    }
}

/// URL-decodes a request path.
pub fn url_decode(s: &str) -> (r: String)
    ensures
        r@ == url_decode_spec(s@),
{
    let v = chars_of(s);
    let n = v.len();
    let mut out: Vec<char> = Vec::new();
    let mut i: usize = 0;
    assert(v@.skip(0) =~= v@);
    while i < n
        invariant
            n == v@.len(),
            0 <= i <= n,
            out@ + url_decode_spec(v@.skip(i as int)) == url_decode_spec(v@),
        decreases n - i,
    {
        let ghost s = v@.skip(i as int);
        let ghost old_out = out@;
        assert(s[0] == v@[i as int]);
        let c = v[i];
        if c == '%' {
            let ghost rest = s.drop_first();
            assert(rest =~= v@.skip(i as int + 1));
            if n - i >= 3 {
                assert(rest[0] == v@[i + 1] && rest[1] == v@[i + 2]);
                match hex_pair_exec(v[i + 1], v[i + 2]) {
                    Some(b) => {
                        out.push(b as char);
                        assert(rest.skip(2) =~= v@.skip(i as int + 3));
                        i = i + 3;
                        assert(out@ + url_decode_spec(v@.skip(i as int)) =~= old_out + url_decode_spec(s));
                        continue;
                    },
                    None => {},
                }
            }
            let next = if n - i >= 3 { i + 3 } else { n };
            out.push('%');
            let taken = slice_chars(v.as_slice(), i + 1, next);
            push_all(&mut out, taken.as_slice());
            proof {
                let k: int = if rest.len() >= 2 { 2 } else { rest.len() as int };
                assert(taken@ =~= rest.take(k));
                assert(rest.skip(k) =~= v@.skip(next as int));
            }
            i = next;
            assert(out@ + url_decode_spec(v@.skip(i as int)) =~= old_out + url_decode_spec(s));
        } else {
            if c == '+' {
                out.push(' ');
            } else {
                out.push(c);
            }
            assert(s.drop_first() =~= v@.skip(i as int + 1));
            i = i + 1;
            assert(out@ + url_decode_spec(v@.skip(i as int)) =~= old_out + url_decode_spec(s));
        }
    }
    assert(v@.skip(n as int) =~= Seq::<char>::empty());
    assert(out@ + url_decode_spec(v@.skip(n as int)) =~= out@);
    string_from(out.as_slice())
}

// ==================== Request paths ====================

/// Why a request path was refused.
#[derive(Debug)]
pub enum ServerError {
    /// A `..` component would leave the project directory.
    PathTraversal,
}

/// A request path URL-decoded, cut at `?`, with `\` turned into `/`.
pub open spec fn normalized_request_path(path: Seq<char>) -> Seq<char> {
    replace_spec(before_char(url_decode_spec(path), '?'), "\\"@, "/"@)
}

/// The path, or the refusal where one of its `/`-separated components is `..`.
pub open spec fn sanitize_spec(path: Seq<char>) -> Option<Seq<char>> {
    let n = normalized_request_path(path);
    if split_spec(n, '/').contains(".."@) {
        None
    } else {
        Some(n)
    }
}

/// Decodes a request path and refuses directory traversal.
pub fn sanitize_path(path: &str) -> (r: Result<String, ServerError>)
    ensures
        match r {
            Ok(p) => sanitize_spec(path@) == Some(p@),
            Err(e) => sanitize_spec(path@) is None && e == ServerError::PathTraversal,
        },
{
    proof {
        reveal_strlit("\\");
    }
    let decoded = url_decode(path);
    let dv = chars_of(decoded.as_str());
    let (clean, _) = split_once(dv.as_slice(), '?');
    let normalized = replace_str(clean.as_slice(), "\\", "/");
    let comps = split_char(normalized.as_slice(), '/');
    assert(normalized@ == normalized_request_path(path@));
    let mut i: usize = 0;
    while i < comps.len()
        invariant
            0 <= i <= comps@.len(),
            views(comps@) == split_spec(normalized@, '/'),
            normalized@ == normalized_request_path(path@),
            forall|j: int| 0 <= j < i ==> (#[trigger] views(comps@)[j]) != ".."@,
        decreases comps@.len() - i,
    {
        assert(views(comps@)[i as int] == comps@[i as int]@);
        if eq_str(comps[i].as_slice(), "..") {
            assert(split_spec(normalized@, '/')[i as int] == ".."@);
            assert(split_spec(normalized@, '/').contains(".."@));
            return Err(ServerError::PathTraversal);
        }
        i = i + 1;
    }
    assert(!split_spec(normalized@, '/').contains(".."@));
    Ok(string_from(normalized.as_slice()))
}

/// A request path that is let through has no `..` component (so it cannot
/// leave the project directory), and one that has such a component after
/// decoding is refused.
pub proof fn law_sanitize_refuses_traversal(path: Seq<char>)
    ensures
        sanitize_spec(path) matches Some(p) ==> forall|i: int|
            0 <= i < split_spec(p, '/').len() ==> #[trigger] split_spec(p, '/')[i] != ".."@,
        (exists|i: int|
            0 <= i < split_spec(normalized_request_path(path), '/').len() && #[trigger] split_spec(
                normalized_request_path(path),
                '/',
            )[i] == ".."@) ==> sanitize_spec(path) is None,
{
    let n = normalized_request_path(path);
    if !split_spec(n, '/').contains(".."@) {
        assert forall|i: int| 0 <= i < split_spec(n, '/').len() implies #[trigger] split_spec(n, '/')[i]
            != ".."@ by {
            if split_spec(n, '/')[i] == ".."@ {
                assert(split_spec(n, '/').contains(".."@));
            }
        }
    }
}

/// Whether the path's extension is exactly `html` or `htm`.
pub open spec fn is_html_spec(path: Seq<char>) -> bool {
    path_extension_spec(path) == Some("html"@) || path_extension_spec(path) == Some("htm"@)
}

/// Whether the path names an HTML file.
pub fn is_html_file(path: &str) -> (r: bool)
    ensures
        r == is_html_spec(path@),
{
    match path_extension(path) {
        Some(e) => {
            let ev = chars_of(e.as_str());
            eq_str(ev.as_slice(), "html") || eq_str(ev.as_slice(), "htm")
        },
        None => false,
    }
}

/// The content type that the development server gives a lowercase extension,
/// where its own table has one.
pub open spec fn dev_mime_for(ext: Seq<char>) -> Option<Seq<char>> {
    if ext == "html"@ {
        Some("text/html; charset=utf-8"@)
    } else if ext == "htm"@ {
        Some("text/html; charset=utf-8"@)
    } else if ext == "css"@ {
        Some("text/css; charset=utf-8"@)
    } else if ext == "js"@ {
        Some("application/javascript; charset=utf-8"@)
    } else if ext == "mjs"@ {
        Some("application/javascript; charset=utf-8"@)
    } else if ext == "json"@ {
        Some("application/json; charset=utf-8"@)
    } else if ext == "xml"@ {
        Some("application/xml; charset=utf-8"@)
    } else if ext == "svg"@ {
        Some("image/svg+xml"@)
    } else if ext == "png"@ {
        Some("image/png"@)
    } else if ext == "jpg"@ {
        Some("image/jpeg"@)
    } else if ext == "jpeg"@ {
        Some("image/jpeg"@)
    } else if ext == "gif"@ {
        Some("image/gif"@)
    } else if ext == "webp"@ {
        Some("image/webp"@)
    } else if ext == "ico"@ {
        Some("image/x-icon"@)
    } else if ext == "woff"@ {
        Some("font/woff"@)
    } else if ext == "woff2"@ {
        Some("font/woff2"@)
    } else if ext == "ttf"@ {
        Some("font/ttf"@)
    } else if ext == "otf"@ {
        Some("font/otf"@)
    } else if ext == "mp4"@ {
        Some("video/mp4"@)
    } else if ext == "webm"@ {
        Some("video/webm"@)
    } else if ext == "mp3"@ {
        Some("audio/mpeg"@)
    } else if ext == "wav"@ {
        Some("audio/wav"@)
    } else if ext == "pdf"@ {
        Some("application/pdf"@)
    } else if ext == "txt"@ {
        Some("text/plain; charset=utf-8"@)
    } else if ext == "md"@ {
        Some("text/markdown; charset=utf-8"@)
    } else if ext == "wasm"@ {
        Some("application/wasm"@)
    } else if ext == "map"@ {
        Some("application/json"@)
    } else {
        None
    }
}

fn dev_mime_of(ext: &[char]) -> (r: Option<&'static str>)
    ensures
        match dev_mime_for(ext@) {
            Some(m) => r is Some && r->0@ == m,
            None => r is None,
        },
{
    if eq_str(ext, "html") {
        return Some("text/html; charset=utf-8");
    }
    if eq_str(ext, "htm") {
        return Some("text/html; charset=utf-8");
    }
    if eq_str(ext, "css") {
        return Some("text/css; charset=utf-8");
    }
    if eq_str(ext, "js") {
        return Some("application/javascript; charset=utf-8");
    }
    if eq_str(ext, "mjs") {
        return Some("application/javascript; charset=utf-8");
    }
    if eq_str(ext, "json") {
        return Some("application/json; charset=utf-8");
    }
    if eq_str(ext, "xml") {
        return Some("application/xml; charset=utf-8");
    }
    if eq_str(ext, "svg") {
        return Some("image/svg+xml");
    }
    if eq_str(ext, "png") {
        return Some("image/png");
    }
    if eq_str(ext, "jpg") {
        return Some("image/jpeg");
    }
    if eq_str(ext, "jpeg") {
        return Some("image/jpeg");
    }
    if eq_str(ext, "gif") {
        return Some("image/gif");
    }
    if eq_str(ext, "webp") {
        return Some("image/webp");
    }
    if eq_str(ext, "ico") {
        return Some("image/x-icon");
    }
    if eq_str(ext, "woff") {
        return Some("font/woff");
    }
    if eq_str(ext, "woff2") {
        return Some("font/woff2");
    }
    if eq_str(ext, "ttf") {
        return Some("font/ttf");
    }
    if eq_str(ext, "otf") {
        return Some("font/otf");
    }
    if eq_str(ext, "mp4") {
        return Some("video/mp4");
    }
    if eq_str(ext, "webm") {
        return Some("video/webm");
    }
    if eq_str(ext, "mp3") {
        return Some("audio/mpeg");
    }
    if eq_str(ext, "wav") {
        return Some("audio/wav");
    }
    if eq_str(ext, "pdf") {
        return Some("application/pdf");
    }
    if eq_str(ext, "txt") {
        return Some("text/plain; charset=utf-8");
    }
    if eq_str(ext, "md") {
        return Some("text/markdown; charset=utf-8");
    }
    if eq_str(ext, "wasm") {
        return Some("application/wasm");
    }
    if eq_str(ext, "map") {
        return Some("application/json");
    }
    None
}

/// The type that `mime_guess` gives a path by its extension
/// (`application/octet-stream` where it knows none).
pub uninterp spec fn mime_guess_spec(path: Seq<char>) -> Seq<char>;

/// `mime_guess::from_path(path).first_or_octet_stream()`, as text. The
/// table of types is the crate's and is only named here.
#[verifier::external_body]
fn mime_guess_from_path(path: &str) -> (r: String)
    ensures
        r@ == mime_guess_spec(path@),
{
    mime_guess::from_path(path).first_or_octet_stream().to_string()
}

/// The lowercase extension of a path (empty where it has none).
pub open spec fn lower_extension(path: Seq<char>) -> Seq<char> {
    match path_extension_spec(path) {
        Some(e) => lowercase(e),
        None => Seq::empty(),
    }
}

/// The content type that the development server sends for a file.
pub open spec fn dev_mime_spec(path: Seq<char>) -> Seq<char> {
    match dev_mime_for(lower_extension(path)) {
        Some(m) => m,
        None => mime_guess_spec(path),
    }
}

/// The content type for a file: the server's own table by lowercase
/// extension, else `mime_guess`.
pub fn guess_mime_for_path(path: &str) -> (r: String)
    ensures
        r@ == dev_mime_spec(path@),
{
    let ext = match path_extension(path) {
        Some(e) => {
            let ev = chars_of(e.as_str());
            to_lowercase(ev.as_slice())
        },
        None => Vec::new(),
    };
    assert(ext@ == lower_extension(path@));
    match dev_mime_of(ext.as_slice()) {
        Some(m) => owned(m),
        None => mime_guess_from_path(path),
    }
}

// ==================== The hot reload script ====================

/// The first position at which `p` occurs in `s`.
pub open spec fn first_index(s: Seq<char>, p: Seq<char>) -> int {
    choose|i: int| occurs_at(s, p, i) && forall|j: int| 0 <= j < i ==> !occurs_at(s, p, j)
}

/// The first position of a pattern is the one where it occurs with no
/// occurrence before it.
pub proof fn lemma_first_index_pub(s: Seq<char>, p: Seq<char>, i: int)
    requires
        occurs_at(s, p, i),
        forall|j: int| 0 <= j < i ==> !occurs_at(s, p, j),
    ensures
        first_index(s, p) == i,
{
    lemma_first_index(s, p, i);
}

proof fn lemma_first_index(s: Seq<char>, p: Seq<char>, i: int)
    requires
        occurs_at(s, p, i),
        forall|j: int| 0 <= j < i ==> !occurs_at(s, p, j),
    ensures
        first_index(s, p) == i,
{
    let c = first_index(s, p);
    assert(occurs_at(s, p, c) && forall|j: int| 0 <= j < c ==> !occurs_at(s, p, j));
    if c < i {
        assert(!occurs_at(s, p, c));
    }
    if c > i {
        assert(!occurs_at(s, p, i));
    }
}

/// Where a pattern occurs, it has a first occurrence.
proof fn lemma_first_occurrence(s: Seq<char>, p: Seq<char>, k: int)
    requires
        occurs_at(s, p, k),
    ensures
        occurs_at(s, p, first_index(s, p)),
        forall|j: int| 0 <= j < first_index(s, p) ==> !occurs_at(s, p, j),
        0 <= first_index(s, p) <= k,
    decreases k,
{
    if exists|j: int| 0 <= j < k && occurs_at(s, p, j) {
        let j = choose|j: int| 0 <= j < k && occurs_at(s, p, j);
        lemma_first_occurrence(s, p, j);
    } else {
        lemma_first_index(s, p, k);
    }
}

/// The reload script goes into the page and nothing else changes: the
/// page is the text before the script followed by the text after it. The
/// script stands right before the first `</head>`; without one, right
/// before the first `<body`; without either, at the end.
pub proof fn law_inject_places_script(html: Seq<char>, port: u16)
    ensures
        exists|i: int|
            0 <= i <= html.len() && #[trigger] inject_spec(html, port) == html.take(i) + reload_script_spec(port)
                + html.skip(i) && (contains_seq(html, "</head>"@) ==> crate::text::has_prefix(html.skip(i), "</head>"@)
                && !contains_seq(html.take(i), "</head>"@)) && (!contains_seq(html, "</head>"@) && contains_seq(
                html,
                "<body"@,
            ) ==> crate::text::has_prefix(html.skip(i), "<body"@) && !contains_seq(html.take(i), "<body"@)) && (
            !contains_seq(html, "</head>"@) && !contains_seq(html, "<body"@) ==> i == html.len()),
{
    let script = reload_script_spec(port);
    reveal_strlit("</head>");
    reveal_strlit("<body");
    if contains_seq(html, "</head>"@) {
        let k = choose|k: int| occurs_at(html, "</head>"@, k);
        lemma_first_occurrence(html, "</head>"@, k);
        let i = first_index(html, "</head>"@);
        first_part_facts(html, "</head>"@, i);
        assert(inject_spec(html, port) == html.take(i) + script + html.skip(i));
    } else if contains_seq(html, "<body"@) {
        let k = choose|k: int| occurs_at(html, "<body"@, k);
        lemma_first_occurrence(html, "<body"@, k);
        let i = first_index(html, "<body"@);
        first_part_facts(html, "<body"@, i);
        assert(inject_spec(html, port) == html.take(i) + script + html.skip(i));
    } else {
        let i = html.len() as int;
        assert(html.take(i) =~= html);
        assert(html.skip(i) =~= Seq::<char>::empty());
        assert(inject_spec(html, port) =~= html.take(i) + script + html.skip(i));
    }
}

/// At the first occurrence of a pattern, the rest starts with it and the
/// text before it holds none.
proof fn first_part_facts(s: Seq<char>, p: Seq<char>, i: int)
    requires
        occurs_at(s, p, i),
        forall|j: int| 0 <= j < i ==> !occurs_at(s, p, j),
        p.len() > 0,
    ensures
        crate::text::has_prefix(s.skip(i), p),
        !contains_seq(s.take(i), p),
{
    assert(s.skip(i).subrange(0, p.len() as int) =~= s.subrange(i, i + p.len()));
    if contains_seq(s.take(i), p) {
        let j = choose|j: int| occurs_at(s.take(i), p, j);
        assert(s.take(i).subrange(j, j + p.len()) =~= s.subrange(j, j + p.len()));
        assert(j < i);
        assert(occurs_at(s, p, j));
    }
}

/// The reload client script for a port.
pub open spec fn reload_script_spec(port: u16) -> Seq<char> {
    RELOAD_SCRIPT_HEAD@ + decimal_spec(port as nat) + RELOAD_SCRIPT_TAIL@
}

/// `s` with `x` inserted at position `i`.
pub open spec fn insert_at(s: Seq<char>, i: int, x: Seq<char>) -> Seq<char> {
    s.take(i) + x + s.skip(i)
}

/// The page with the reload script before its first `</head>`, else before
/// its first `<body`, else at its end.
pub open spec fn inject_spec(html: Seq<char>, port: u16) -> Seq<char> {
    if contains_seq(html, "</head>"@) {
        insert_at(html, first_index(html, "</head>"@), reload_script_spec(port))
    } else if contains_seq(html, "<body"@) {
        insert_at(html, first_index(html, "<body"@), reload_script_spec(port))
    } else {
        html + reload_script_spec(port)
    }
}

fn insert_chars(h: &[char], i: usize, x: &[char]) -> (r: Vec<char>)
    requires
        i <= h@.len(),
    ensures
        r@ == insert_at(h@, i as int, x@),
{
    let n = h.len();
    let mut r = slice_chars(h, 0, i);
    push_all(&mut r, x);
    let tail = slice_chars(h, i, n);
    push_all(&mut r, tail.as_slice());
    assert(r@ =~= insert_at(h@, i as int, x@));
    r
}

/// Adds the hot reload client, which connects to `ws://127.0.0.1:<port>/`.
pub fn inject_hot_reload_script(html: &str, reload_port: u16) -> (r: String)
    ensures
        r@ == inject_spec(html@, reload_port),
{
    let mut script = chars_of(RELOAD_SCRIPT_HEAD);
    let d = decimal(reload_port as u64);
    push_all(&mut script, d.as_slice());
    push_str(&mut script, RELOAD_SCRIPT_TAIL);
    assert(script@ == reload_script_spec(reload_port));
    let h = chars_of(html);
    let head_tag = chars_of("</head>");
    let body_tag = chars_of("<body");
    let out = match find(h.as_slice(), head_tag.as_slice()) {
        Some(pos) => {
            proof {
                lemma_first_index(h@, head_tag@, pos as int);
                assert(contains_seq(h@, head_tag@));
            }
            insert_chars(h.as_slice(), pos, script.as_slice())
        },
        None => match find(h.as_slice(), body_tag.as_slice()) {
            Some(pos) => {
                proof {
                    lemma_first_index(h@, body_tag@, pos as int);
                    assert(contains_seq(h@, body_tag@));
                }
                insert_chars(h.as_slice(), pos, script.as_slice())
            },
            None => {
                let mut o = h;
                push_all(&mut o, script.as_slice());
                o
            },
        },
    };
    string_from(out.as_slice())
}

// ==================== Pages and responses ====================

/// A response of the development server.
#[derive(Debug)]
pub struct DevResponse {
    /// HTTP status code.
    pub status: u16,
    /// Header lines, in order.
    pub headers: Vec<(String, String)>,
    /// Body bytes.
    pub body: Vec<u8>,
}

/// The header lines as text pairs.
pub open spec fn header_lines(h: Seq<(String, String)>) -> Seq<(Seq<char>, Seq<char>)> {
    h.map_values(|p: (String, String)| (p.0@, p.1@))
}

/// The 404 page text for a path.
pub open spec fn not_found_page_spec(path: Seq<char>) -> Seq<char> {
    NOT_FOUND_PAGE_HEAD@ + escape_simple_spec(path) + NOT_FOUND_PAGE_TAIL@
}

/// The error page text for a status code and message.
pub open spec fn error_page_spec(code: u16, message: Seq<char>) -> Seq<char> {
    ERROR_PAGE_HEAD@ + decimal_spec(code as nat) + ERROR_PAGE_MIDDLE@ + decimal_spec(code as nat)
        + ERROR_PAGE_BEFORE_MESSAGE@ + escape_simple_spec(message) + ERROR_PAGE_END@
}

/// The compile error page text for a file and message.
pub open spec fn nc_error_page_spec(file: Seq<char>, message: Seq<char>) -> Seq<char> {
    NC_ERROR_PAGE_HEAD@ + escape_simple_spec(file) + NC_ERROR_PAGE_MIDDLE@ + escape_simple_spec(
        message,
    ) + NC_ERROR_PAGE_TAIL@
}

/// The one header line of the server's own pages.
pub open spec fn html_header_lines() -> Seq<(Seq<char>, Seq<char>)> {
    seq![("Content-Type"@, "text/html; charset=utf-8"@)]
}

fn html_page(status: u16, page: &[char]) -> (r: DevResponse)
    ensures
        r.status == status,
        header_lines(r.headers@) == html_header_lines(),
        r.body@ == vstd::utf8::encode_utf8(page@),
{
    let mut headers: Vec<(String, String)> = Vec::new();
    headers.push((owned("Content-Type"), owned("text/html; charset=utf-8")));
    assert(header_lines(headers@) =~= html_header_lines());
    DevResponse { status, headers, body: utf8_bytes(page) }
}

/// The 404 response naming `path`.
pub fn create_404_response(path: &str) -> (r: DevResponse)
    ensures
        r.status == 404,
        header_lines(r.headers@) == html_header_lines(),
        r.body@ == vstd::utf8::encode_utf8(not_found_page_spec(path@)),
{
    let mut page = chars_of(NOT_FOUND_PAGE_HEAD);
    push_str(&mut page, html_escape_simple(path).as_str());
    push_str(&mut page, NOT_FOUND_PAGE_TAIL);
    html_page(404, page.as_slice())
}

/// An error response with status `code` showing `message`.
pub fn create_error_response(code: u16, message: &str) -> (r: DevResponse)
    ensures
        r.status == code,
        header_lines(r.headers@) == html_header_lines(),
        r.body@ == vstd::utf8::encode_utf8(error_page_spec(code, message@)),
{
    let d = decimal(code as u64);
    let mut page = chars_of(ERROR_PAGE_HEAD);
    push_all(&mut page, d.as_slice());
    push_str(&mut page, ERROR_PAGE_MIDDLE);
    push_all(&mut page, d.as_slice());
    push_str(&mut page, ERROR_PAGE_BEFORE_MESSAGE);
    push_str(&mut page, html_escape_simple(message).as_str());
    push_str(&mut page, ERROR_PAGE_END);
    html_page(code, page.as_slice())
}

/// The 400 response for a component file that failed to compile.
pub fn create_nc_error_response(file: &str, message: &str) -> (r: DevResponse)
    ensures
        r.status == 400,
        header_lines(r.headers@) == html_header_lines(),
        r.body@ == vstd::utf8::encode_utf8(nc_error_page_spec(file@, message@)),
{
    let mut page = chars_of(NC_ERROR_PAGE_HEAD);
    push_str(&mut page, html_escape_simple(file).as_str());
    push_str(&mut page, NC_ERROR_PAGE_MIDDLE);
    push_str(&mut page, html_escape_simple(message).as_str());
    push_str(&mut page, NC_ERROR_PAGE_TAIL);
    html_page(400, page.as_slice())
}

/// The page sent to a host outside `allowed_domains`.
pub const FORBIDDEN_PAGE: &'static str = "<h1>403 Forbidden</h1><p>Domain is not in the allowed_domains whitelist</p>";

/// The 403 response for a host outside `allowed_domains`.
pub fn create_forbidden_response() -> (r: DevResponse)
    ensures
        r.status == 403,
        header_lines(r.headers@) == html_header_lines(),
        r.body@ == vstd::utf8::encode_utf8(FORBIDDEN_PAGE@),
{
    let page = chars_of(FORBIDDEN_PAGE);
    html_page(403, page.as_slice())
}


// ==================== Answering a request ====================

/// The request path: the URL before its first `?`.
pub fn url_path(url: &str) -> (r: String)
    ensures
        r@ == before_char(url@, '?'),
{
    let v = chars_of(url);
    let (p, _) = split_once(v.as_slice(), '?');
    string_from(p.as_slice())
}

/// The host name of a `Host` header: the text before its first `:`.
pub open spec fn host_name(host: Seq<char>) -> Seq<char> {
    before_char(host, ':')
}

/// A request is let through where no domains are listed, or where its host
/// name is one of them.
pub open spec fn host_allowed_spec(allowed: Seq<Seq<char>>, host: Seq<char>) -> bool {
    allowed.len() == 0 || allowed.contains(host_name(host))
}

/// With no domains listed every request is let through; otherwise a
/// request is let through exactly when its host name is listed, whatever
/// port follows the name.
pub proof fn law_host_allowed(allowed: Seq<Seq<char>>, name: Seq<char>, port: Seq<char>)
    requires
        !name.contains(':'),
    ensures
        allowed.len() == 0 ==> host_allowed_spec(allowed, name + seq![':'] + port),
        allowed.len() > 0 ==> (host_allowed_spec(allowed, name) <==> allowed.contains(name)),
        host_allowed_spec(allowed, name + seq![':'] + port) == host_allowed_spec(allowed, name),
{
    crate::protocol::lemma_before_char_of(name, ':', port);
    crate::protocol::lemma_split_without(name, ':');
    assert(host_name(name) == name);
}

/// Whether a request with this `Host` header (empty where there is none)
/// is let through.
pub fn host_allowed(allowed_domains: &Vec<String>, host: &str) -> (r: bool)
    ensures
        r == host_allowed_spec(crate::config::string_views(allowed_domains@), host@),
{
    let ghost names = crate::config::string_views(allowed_domains@);
    if allowed_domains.len() == 0 {
        return true;
    }
    let hv = chars_of(host);
    let (name, _) = split_once(hv.as_slice(), ':');
    let mut i: usize = 0;
    while i < allowed_domains.len()
        invariant
            0 <= i <= allowed_domains@.len(),
            names == crate::config::string_views(allowed_domains@),
            name@ == host_name(host@),
            forall|j: int| 0 <= j < i ==> (#[trigger] names[j]) != name@,
        decreases allowed_domains@.len() - i,
    {
        let d = chars_of(allowed_domains[i].as_str());
        assert(names[i as int] == allowed_domains@[i as int]@);
        if crate::text::seq_eq(d.as_slice(), name.as_slice()) {
            assert(names.contains(name@));
            return true;
        }
        i = i + 1;
    }
    false
}

/// The path, relative to the project, that a sanitized request path names:
/// the entry for the root, else the path without its leading `/`s.
pub open spec fn target_relative(safe: Seq<char>, entry: Seq<char>) -> Seq<char> {
    if safe.len() == 0 || safe == "/"@ {
        entry
    } else {
        trim_leading_slashes(safe)
    }
}

/// The file a request path names inside the project directory, or the
/// refusal of a traversing path.
pub fn resolve_request_file(path: &str, project_dir: &str, entry: &str) -> (r: Result<String, ServerError>)
    ensures
        match sanitize_spec(path@) {
            Some(safe) => r is Ok && r->Ok_0@ == path_join_spec(project_dir@, target_relative(safe, entry@)),
            None => r == Err::<String, ServerError>(ServerError::PathTraversal),
        },
{
    let safe = match sanitize_path(path) {
        Ok(s) => s,
        Err(e) => return Err(e),
    };
    let sv = chars_of(safe.as_str());
    if sv.len() == 0 || eq_str(sv.as_slice(), "/") {
        Ok(join_path(project_dir, entry))
    } else {
        let rel = strip_leading_slashes(sv.as_slice());
        let rs = string_from(rel.as_slice());
        Ok(join_path(project_dir, rs.as_str()))
    }
}

/// The result of `Path::with_extension` on a path, as text.
pub uninterp spec fn path_with_extension_spec(p: Seq<char>, ext: Seq<char>) -> Seq<char>;

/// `Path::new(p).with_extension(ext)`, as text. Which part of the name it
/// replaces is left to std and only named here.
#[verifier::external_body]
fn path_with_extension(p: &str, ext: &str) -> (r: String)
    ensures
        r@ == path_with_extension_spec(p@, ext@),
{
    std::path::Path::new(p).with_extension(ext).to_string_lossy().into_owned()
}

/// The component file that stands beside an HTML file: the same path with
/// the extension `nc`.
pub fn nc_companion(file: &str) -> (r: String)
    ensures
        r@ == path_with_extension_spec(file@, "nc"@),
{
    path_with_extension(file, "nc")
}

/// What a request for an existing or missing file is answered from.
#[derive(Debug)]
pub enum SourceChoice {
    /// The file itself.
    Serve,
    /// The component file beside it, compiled to HTML.
    CompileNc,
    /// Nothing: 404.
    NotFound,
}

/// The choice for a requested file, by whether it is `.html`, whether it
/// exists and whether its `.nc` companion exists: the companion wins for
/// HTML, even over an existing file.
pub open spec fn choose_source_spec(html_requested: bool, file_exists: bool, nc_exists: bool) -> SourceChoice {
    if html_requested && nc_exists {
        SourceChoice::CompileNc
    } else if !file_exists {
        SourceChoice::NotFound
    } else {
        SourceChoice::Serve
    }
}

/// Chooses what a request for a file is answered from.
pub fn choose_source(html_requested: bool, file_exists: bool, nc_exists: bool) -> (r: SourceChoice)
    ensures
        r == choose_source_spec(html_requested, file_exists, nc_exists),
{
    if html_requested && nc_exists {
        SourceChoice::CompileNc
    } else if !file_exists && html_requested {
        if nc_exists {
            SourceChoice::CompileNc
        } else {
            SourceChoice::NotFound
        }
    } else if !file_exists {
        SourceChoice::NotFound
    } else {
        SourceChoice::Serve
    }
}

/// Where a request is answered from. An `.html` request whose `.nc`
/// companion exists is compiled from the companion, whether the `.html`
/// file exists or not; a request is refused (404) exactly when its file is
/// missing and no companion is compiled; and the file itself is served
/// exactly when it exists and no companion is compiled. A request that is
/// not for `.html` is never compiled.
pub proof fn law_source_choice(html_requested: bool, file_exists: bool, nc_exists: bool)
    ensures
        (choose_source_spec(html_requested, file_exists, nc_exists) == SourceChoice::CompileNc) <==> (
        html_requested && nc_exists),
        (choose_source_spec(html_requested, file_exists, nc_exists) == SourceChoice::NotFound) <==> (!file_exists
            && !(html_requested && nc_exists)),
        (choose_source_spec(html_requested, file_exists, nc_exists) == SourceChoice::Serve) <==> (file_exists
            && !(html_requested && nc_exists)),
        !html_requested ==> choose_source_spec(html_requested, file_exists, nc_exists) != SourceChoice::CompileNc,
{
}

/// Whether a path's extension is exactly `html` (the case that looks for a
/// `.nc` companion).
pub fn is_html_request(path: &str) -> (r: bool)
    ensures
        r == (path_extension_spec(path@) == Some("html"@)),
{
    match path_extension(path) {
        Some(e) => {
            let ev = chars_of(e.as_str());
            eq_str(ev.as_slice(), "html")
        },
        None => false,
    }
}

/// The headers of a served file: the base set, then the security policy,
/// then the configured headers, in order.
pub open spec fn dev_headers_spec(mime: Seq<char>, csp: Option<Seq<char>>, extra: Seq<(Seq<char>, Seq<char>)>) -> Seq<(Seq<char>, Seq<char>)> {
    seq![
        ("Content-Type"@, mime),
        ("Access-Control-Allow-Origin"@, "*"@),
        ("Access-Control-Allow-Methods"@, "GET, POST, OPTIONS"@),
        ("Access-Control-Allow-Headers"@, "Content-Type"@),
        ("Cache-Control"@, "no-cache, no-store, must-revalidate"@),
        ("X-Nefu-Dev"@, "true"@),
    ] + match csp {
        Some(c) => seq![("Content-Security-Policy"@, c)],
        None => Seq::empty(),
    } + extra
}

fn push_header(h: &mut Vec<(String, String)>, name: &str, value: &str)
    ensures
        header_lines(final(h)@) == header_lines(old(h)@).push((name@, value@)),
{
    let ghost before = header_lines(h@);
    h.push((owned(name), owned(value)));
    assert(header_lines(h@) =~= before.push((name@, value@)));
}

/// The headers for a served file of type `mime`.
pub fn dev_headers(mime: &str, config: &NefuConfig) -> (r: Vec<(String, String)>)
    ensures
        header_lines(r@) == dev_headers_spec(mime@, opt_string_view(config.csp), header_lines(config.headers@)),
{
    let mut h: Vec<(String, String)> = Vec::new();
    assert(header_lines(h@) =~= Seq::<(Seq<char>, Seq<char>)>::empty());
    push_header(&mut h, "Content-Type", mime);
    push_header(&mut h, "Access-Control-Allow-Origin", "*");
    push_header(&mut h, "Access-Control-Allow-Methods", "GET, POST, OPTIONS");
    push_header(&mut h, "Access-Control-Allow-Headers", "Content-Type");
    push_header(&mut h, "Cache-Control", "no-cache, no-store, must-revalidate");
    push_header(&mut h, "X-Nefu-Dev", "true");
    let ghost base = header_lines(h@);
    match &config.csp {
        Some(c) => push_header(&mut h, "Content-Security-Policy", c.as_str()),
        None => {},
    }
    let ghost with_csp = header_lines(h@);
    let mut i: usize = 0;
    while i < config.headers.len()
        invariant
            0 <= i <= config.headers@.len(),
            header_lines(h@) == with_csp + header_lines(config.headers@).take(i as int),
        decreases config.headers@.len() - i,
    {
        let ghost before = header_lines(h@);
        push_header(&mut h, config.headers[i].0.as_str(), config.headers[i].1.as_str());
        assert(header_lines(config.headers@).take(i as int + 1) =~= header_lines(config.headers@).take(i as int).push(
            header_lines(config.headers@)[i as int],
        ));
        i = i + 1;
    }
    assert(header_lines(config.headers@).take(config.headers@.len() as int) =~= header_lines(config.headers@));
    h
}

/// The body of a served file: HTML files (by extension) are read as text
/// (invalid UTF-8 replaced) and get the reload script; others are sent as
/// they are.
pub open spec fn served_body_spec(path: Seq<char>, content: Seq<u8>, port: u16) -> Seq<u8> {
    if is_html_spec(path) {
        vstd::utf8::encode_utf8(inject_spec(utf8_lossy_spec(content), port))
    } else {
        content
    }
}

/// The 200 response for an existing file read from `path`.
pub fn file_response(path: &str, content: Vec<u8>, reload_port: u16, config: &NefuConfig) -> (r: DevResponse)
    ensures
        r.status == 200,
        r.body@ == served_body_spec(path@, content@, reload_port),
        header_lines(r.headers@) == dev_headers_spec(dev_mime_spec(path@), opt_string_view(config.csp), header_lines(config.headers@)),
{
    let body = if is_html_file(path) {
        let text = utf8_lossy(content.as_slice());
        let page = inject_hot_reload_script(text.as_str(), reload_port);
        page.as_str().as_bytes_vec()
    } else {
        content
    };
    let mime = guess_mime_for_path(path);
    DevResponse { status: 200, headers: dev_headers(mime.as_str(), config), body }
}

/// The 200 response for a component file compiled to `html`. The reload
/// script is added once when the page is compiled and once more when it is
/// served, as for every HTML page.
pub fn compiled_response(html: &str, reload_port: u16, config: &NefuConfig) -> (r: DevResponse)
    ensures
        r.status == 200,
        r.body@ == vstd::utf8::encode_utf8(inject_spec(inject_spec(html@, reload_port), reload_port)),
        header_lines(r.headers@) == dev_headers_spec("text/html; charset=utf-8"@, opt_string_view(config.csp), header_lines(config.headers@)),
{
    let once = inject_hot_reload_script(html, reload_port);
    let twice = inject_hot_reload_script(once.as_str(), reload_port);
    DevResponse {
        status: 200,
        headers: dev_headers("text/html; charset=utf-8", config),
        body: twice.as_str().as_bytes_vec(),
    }
}

// ==================== The development server ====================

/// A development server for a project directory, its configuration and a port.
#[derive(Debug)]
pub struct DevServer {
    project_dir: String,
    config: NefuConfig,
    port: u16,
}

impl DevServer {
    /// A server for the project; creating one cannot fail.
    pub fn new(project_dir: String, config: NefuConfig, port: u16) -> (r: Result<DevServer, ServerError>)
        ensures
            r is Ok,
            r->Ok_0.project_dir() == project_dir@,
            r->Ok_0.port_spec() == port,
            r->Ok_0.config_spec() == config,
    {
        Ok(DevServer { project_dir, config, port })
    }

    /// The project directory.
    pub closed spec fn project_dir(&self) -> Seq<char> {
        self.project_dir@
    }

    /// The port.
    pub closed spec fn port_spec(&self) -> u16 {
        self.port
    }

    /// The configuration.
    pub closed spec fn config_spec(&self) -> NefuConfig {
        self.config
    }

    /// The project directory.
    pub fn project_dir_str(&self) -> (r: &str)
        ensures
            r@ == self.project_dir(),
    {
        self.project_dir.as_str()
    }

    /// The port to listen on.
    pub fn port(&self) -> (r: u16)
        ensures
            r == self.port_spec(),
    {
        self.port
    }

    /// The configuration served.
    pub fn config(&self) -> (r: &NefuConfig)
        ensures
            *r == self.config_spec(),
    {
        &self.config
    }
}


// ==================== WebSocket hot reload ====================

/// The accept key of RFC 6455: Base64 of the SHA-1 of the key's bytes
/// followed by the GUID's.
pub open spec fn websocket_accept_spec(key: Seq<char>) -> Seq<char> {
    base64_spec(sha1_spec(vstd::utf8::encode_utf8(key) + vstd::utf8::encode_utf8(WS_GUID@)))
}

/// The `Sec-WebSocket-Accept` value for a `Sec-WebSocket-Key`.
pub fn compute_websocket_accept(key: &str) -> (r: String)
    ensures
        r@ == websocket_accept_spec(key@),
{
    let mut data = key.as_bytes_vec();
    let g = WS_GUID.as_bytes();
    let mut i: usize = 0;
    let ghost kb = data@;
    while i < g.len()
        invariant
            0 <= i <= g@.len(),
            data@ == kb + g@.take(i as int),
        decreases g@.len() - i,
    {
        data.push(g[i]);
        assert(g@.take(i as int + 1) =~= g@.take(i as int).push(g@[i as int]));
        i = i + 1;
    }
    assert(g@.take(g@.len() as int) =~= g@);
    let digest = sha1(data.as_slice());
    base64_encode(digest.as_slice())
}

/// The `n` low bytes of `v`, most significant first.
pub open spec fn be_bytes(v: nat, n: nat) -> Seq<u8>
    decreases n,
{
    if n == 0 {
        Seq::empty()
    } else {
        be_bytes(v / 256, (n - 1) as nat).push((v % 256) as u8)
    }
}

/// The length field of a frame: one byte below 126, else 126 and two bytes,
/// else 127 and eight bytes, big-endian.
pub open spec fn frame_length_spec(len: nat) -> Seq<u8> {
    if len < 126 {
        seq![len as u8]
    } else if len <= 0xFFFF {
        seq![126u8] + be_bytes(len, 2)
    } else {
        seq![127u8] + be_bytes(len, 8)
    }
}

/// An unmasked final text frame carrying `payload`.
pub open spec fn text_frame_spec(payload: Seq<u8>) -> Seq<u8> {
    seq![0x81u8] + frame_length_spec(payload.len()) + payload
}

fn push_be(out: &mut Vec<u8>, v: u64, n: usize)
    requires
        n <= 8,
    ensures
        final(out)@ == old(out)@ + be_bytes(v as nat, n as nat),
    decreases n,
{
    if n > 0 {
        push_be(out, v / 256, n - 1);
        out.push((v % 256) as u8);
    }
}

/// The bytes of a text frame (FIN set, opcode 1, not masked) carrying `payload`.
pub fn websocket_text_frame(payload: &[u8]) -> (r: Vec<u8>)
    ensures
        r@ == text_frame_spec(payload@),
{
    let mut out: Vec<u8> = Vec::new();
    out.push(0x81u8);
    let len = payload.len();
    if len < 126 {
        out.push(len as u8);
    } else if len <= 0xFFFF {
        out.push(126u8);
        push_be(&mut out, len as u64, 2);
    } else {
        out.push(127u8);
        push_be(&mut out, len as u64, 8);
    }
    let ghost head = out@;
    assert(head =~= seq![0x81u8] + frame_length_spec(payload@.len()));
    let mut i: usize = 0;
    while i < len
        invariant
            len == payload@.len(),
            0 <= i <= len,
            out@ == head + payload@.take(i as int),
        decreases len - i,
    {
        out.push(payload[i]);
        assert(payload@.take(i as int + 1) =~= payload@.take(i as int).push(payload@[i as int]));
        i = i + 1;
    }
    assert(payload@.take(len as int) =~= payload@);
    out
}

/// The reload notice sent to pages when a file changes, as `serde_json`
/// writes `{"type": "reload", "file": ...}` (keys in sorted order).
pub open spec fn reload_message_spec(file: Seq<char>) -> Seq<char> {
    "{\"file\":"@ + crate::content_tracing::json_quote_spec(file) + ",\"type\":\"reload\"}"@
}

/// The reload notice for a changed file.
pub fn reload_message(file: &str) -> (r: String)
    ensures
        r@ == reload_message_spec(file@),
{
    let mut o = chars_of("{\"file\":");
    let q = crate::content_tracing::json_quote(file);
    push_str(&mut o, q.as_str());
    push_str(&mut o, ",\"type\":\"reload\"}");
    string_from(o.as_slice())
}

/// Lowercase extensions whose change reloads the page.
pub open spec fn reload_extension_spec(ext: Seq<char>) -> bool {
    ext == "html"@ || ext == "htm"@ || ext == "css"@ || ext == "js"@ || ext == "mjs"@ || ext
        == "json"@ || ext == "nc"@ || ext == "svg"@ || ext == "png"@ || ext == "jpg"@ || ext
        == "jpeg"@ || ext == "gif"@ || ext == "webp"@ || ext == "wasm"@
}

proof fn lemma_extension_literals()
    ensures
        "css"@.len() == 3 && "css"@[0] == 'c' && "css"@[1] == 's' && "css"@[2] == 's',
        "gif"@.len() == 3 && "gif"@[0] == 'g' && "gif"@[1] == 'i' && "gif"@[2] == 'f',
        "htm"@.len() == 3 && "htm"@[0] == 'h' && "htm"@[1] == 't' && "htm"@[2] == 'm',
        "html"@.len() == 4 && "html"@[0] == 'h' && "html"@[1] == 't' && "html"@[2] == 'm' && "html"@[3] == 'l',
        "ico"@.len() == 3 && "ico"@[0] == 'i' && "ico"@[1] == 'c' && "ico"@[2] == 'o',
        "jpeg"@.len() == 4 && "jpeg"@[0] == 'j' && "jpeg"@[1] == 'p' && "jpeg"@[2] == 'e' && "jpeg"@[3] == 'g',
        "jpg"@.len() == 3 && "jpg"@[0] == 'j' && "jpg"@[1] == 'p' && "jpg"@[2] == 'g',
        "js"@.len() == 2 && "js"@[0] == 'j' && "js"@[1] == 's',
        "json"@.len() == 4 && "json"@[0] == 'j' && "json"@[1] == 's' && "json"@[2] == 'o' && "json"@[3] == 'n',
        "map"@.len() == 3 && "map"@[0] == 'm' && "map"@[1] == 'a' && "map"@[2] == 'p',
        "md"@.len() == 2 && "md"@[0] == 'm' && "md"@[1] == 'd',
        "mjs"@.len() == 3 && "mjs"@[0] == 'm' && "mjs"@[1] == 'j' && "mjs"@[2] == 's',
        "mp3"@.len() == 3 && "mp3"@[0] == 'm' && "mp3"@[1] == 'p' && "mp3"@[2] == '3',
        "mp4"@.len() == 3 && "mp4"@[0] == 'm' && "mp4"@[1] == 'p' && "mp4"@[2] == '4',
        "nc"@.len() == 2 && "nc"@[0] == 'n' && "nc"@[1] == 'c',
        "otf"@.len() == 3 && "otf"@[0] == 'o' && "otf"@[1] == 't' && "otf"@[2] == 'f',
        "pdf"@.len() == 3 && "pdf"@[0] == 'p' && "pdf"@[1] == 'd' && "pdf"@[2] == 'f',
        "png"@.len() == 3 && "png"@[0] == 'p' && "png"@[1] == 'n' && "png"@[2] == 'g',
        "svg"@.len() == 3 && "svg"@[0] == 's' && "svg"@[1] == 'v' && "svg"@[2] == 'g',
        "ttf"@.len() == 3 && "ttf"@[0] == 't' && "ttf"@[1] == 't' && "ttf"@[2] == 'f',
        "txt"@.len() == 3 && "txt"@[0] == 't' && "txt"@[1] == 'x' && "txt"@[2] == 't',
        "wasm"@.len() == 4 && "wasm"@[0] == 'w' && "wasm"@[1] == 'a' && "wasm"@[2] == 's' && "wasm"@[3] == 'm',
        "wav"@.len() == 3 && "wav"@[0] == 'w' && "wav"@[1] == 'a' && "wav"@[2] == 'v',
        "webm"@.len() == 4 && "webm"@[0] == 'w' && "webm"@[1] == 'e' && "webm"@[2] == 'b' && "webm"@[3] == 'm',
        "webp"@.len() == 4 && "webp"@[0] == 'w' && "webp"@[1] == 'e' && "webp"@[2] == 'b' && "webp"@[3] == 'p',
        "woff"@.len() == 4 && "woff"@[0] == 'w' && "woff"@[1] == 'o' && "woff"@[2] == 'f' && "woff"@[3] == 'f',
        "woff2"@.len() == 5 && "woff2"@[0] == 'w' && "woff2"@[1] == 'o' && "woff2"@[2] == 'f' && "woff2"@[3] == 'f' && "woff2"@[4] == '2',
        "xml"@.len() == 3 && "xml"@[0] == 'x' && "xml"@[1] == 'm' && "xml"@[2] == 'l',
{
    reveal_strlit("css");
    assert("css"@.len() == 3 && "css"@[0] == 'c' && "css"@[1] == 's' && "css"@[2] == 's');
    reveal_strlit("gif");
    assert("gif"@.len() == 3 && "gif"@[0] == 'g' && "gif"@[1] == 'i' && "gif"@[2] == 'f');
    reveal_strlit("htm");
    assert("htm"@.len() == 3 && "htm"@[0] == 'h' && "htm"@[1] == 't' && "htm"@[2] == 'm');
    reveal_strlit("html");
    assert("html"@.len() == 4 && "html"@[0] == 'h' && "html"@[1] == 't' && "html"@[2] == 'm' && "html"@[3] == 'l');
    reveal_strlit("ico");
    assert("ico"@.len() == 3 && "ico"@[0] == 'i' && "ico"@[1] == 'c' && "ico"@[2] == 'o');
    reveal_strlit("jpeg");
    assert("jpeg"@.len() == 4 && "jpeg"@[0] == 'j' && "jpeg"@[1] == 'p' && "jpeg"@[2] == 'e' && "jpeg"@[3] == 'g');
    reveal_strlit("jpg");
    assert("jpg"@.len() == 3 && "jpg"@[0] == 'j' && "jpg"@[1] == 'p' && "jpg"@[2] == 'g');
    reveal_strlit("js");
    assert("js"@.len() == 2 && "js"@[0] == 'j' && "js"@[1] == 's');
    reveal_strlit("json");
    assert("json"@.len() == 4 && "json"@[0] == 'j' && "json"@[1] == 's' && "json"@[2] == 'o' && "json"@[3] == 'n');
    reveal_strlit("map");
    assert("map"@.len() == 3 && "map"@[0] == 'm' && "map"@[1] == 'a' && "map"@[2] == 'p');
    reveal_strlit("md");
    assert("md"@.len() == 2 && "md"@[0] == 'm' && "md"@[1] == 'd');
    reveal_strlit("mjs");
    assert("mjs"@.len() == 3 && "mjs"@[0] == 'm' && "mjs"@[1] == 'j' && "mjs"@[2] == 's');
    reveal_strlit("mp3");
    assert("mp3"@.len() == 3 && "mp3"@[0] == 'm' && "mp3"@[1] == 'p' && "mp3"@[2] == '3');
    reveal_strlit("mp4");
    assert("mp4"@.len() == 3 && "mp4"@[0] == 'm' && "mp4"@[1] == 'p' && "mp4"@[2] == '4');
    reveal_strlit("nc");
    assert("nc"@.len() == 2 && "nc"@[0] == 'n' && "nc"@[1] == 'c');
    reveal_strlit("otf");
    assert("otf"@.len() == 3 && "otf"@[0] == 'o' && "otf"@[1] == 't' && "otf"@[2] == 'f');
    reveal_strlit("pdf");
    assert("pdf"@.len() == 3 && "pdf"@[0] == 'p' && "pdf"@[1] == 'd' && "pdf"@[2] == 'f');
    reveal_strlit("png");
    assert("png"@.len() == 3 && "png"@[0] == 'p' && "png"@[1] == 'n' && "png"@[2] == 'g');
    reveal_strlit("svg");
    assert("svg"@.len() == 3 && "svg"@[0] == 's' && "svg"@[1] == 'v' && "svg"@[2] == 'g');
    reveal_strlit("ttf");
    assert("ttf"@.len() == 3 && "ttf"@[0] == 't' && "ttf"@[1] == 't' && "ttf"@[2] == 'f');
    reveal_strlit("txt");
    assert("txt"@.len() == 3 && "txt"@[0] == 't' && "txt"@[1] == 'x' && "txt"@[2] == 't');
    reveal_strlit("wasm");
    assert("wasm"@.len() == 4 && "wasm"@[0] == 'w' && "wasm"@[1] == 'a' && "wasm"@[2] == 's' && "wasm"@[3] == 'm');
    reveal_strlit("wav");
    assert("wav"@.len() == 3 && "wav"@[0] == 'w' && "wav"@[1] == 'a' && "wav"@[2] == 'v');
    reveal_strlit("webm");
    assert("webm"@.len() == 4 && "webm"@[0] == 'w' && "webm"@[1] == 'e' && "webm"@[2] == 'b' && "webm"@[3] == 'm');
    reveal_strlit("webp");
    assert("webp"@.len() == 4 && "webp"@[0] == 'w' && "webp"@[1] == 'e' && "webp"@[2] == 'b' && "webp"@[3] == 'p');
    reveal_strlit("woff");
    assert("woff"@.len() == 4 && "woff"@[0] == 'w' && "woff"@[1] == 'o' && "woff"@[2] == 'f' && "woff"@[3] == 'f');
    reveal_strlit("woff2");
    assert("woff2"@.len() == 5 && "woff2"@[0] == 'w' && "woff2"@[1] == 'o' && "woff2"@[2] == 'f' && "woff2"@[3] == 'f' && "woff2"@[4] == '2');
    reveal_strlit("xml");
    assert("xml"@.len() == 3 && "xml"@[0] == 'x' && "xml"@[1] == 'm' && "xml"@[2] == 'l');
}

/// The content type that the development server sends, by the file's
/// extension in any case: each extension of its own table with its type
/// (`svg` as `image/svg+xml`, `js` as JavaScript, and so on); for any
/// other extension, what `mime_guess` answers.
#[verifier::spinoff_prover]
pub proof fn law_dev_mime_by_extension(path: Seq<char>)
    ensures
        lower_extension(path) == "html"@ ==> dev_mime_spec(path) == "text/html; charset=utf-8"@,
        lower_extension(path) == "htm"@ ==> dev_mime_spec(path) == "text/html; charset=utf-8"@,
        lower_extension(path) == "css"@ ==> dev_mime_spec(path) == "text/css; charset=utf-8"@,
        lower_extension(path) == "js"@ ==> dev_mime_spec(path) == "application/javascript; charset=utf-8"@,
        lower_extension(path) == "mjs"@ ==> dev_mime_spec(path) == "application/javascript; charset=utf-8"@,
        lower_extension(path) == "json"@ ==> dev_mime_spec(path) == "application/json; charset=utf-8"@,
        lower_extension(path) == "xml"@ ==> dev_mime_spec(path) == "application/xml; charset=utf-8"@,
        lower_extension(path) == "svg"@ ==> dev_mime_spec(path) == "image/svg+xml"@,
        lower_extension(path) == "png"@ ==> dev_mime_spec(path) == "image/png"@,
        lower_extension(path) == "jpg"@ ==> dev_mime_spec(path) == "image/jpeg"@,
        lower_extension(path) == "jpeg"@ ==> dev_mime_spec(path) == "image/jpeg"@,
        lower_extension(path) == "gif"@ ==> dev_mime_spec(path) == "image/gif"@,
        lower_extension(path) == "webp"@ ==> dev_mime_spec(path) == "image/webp"@,
        lower_extension(path) == "ico"@ ==> dev_mime_spec(path) == "image/x-icon"@,
        lower_extension(path) == "woff"@ ==> dev_mime_spec(path) == "font/woff"@,
        lower_extension(path) == "woff2"@ ==> dev_mime_spec(path) == "font/woff2"@,
        lower_extension(path) == "ttf"@ ==> dev_mime_spec(path) == "font/ttf"@,
        lower_extension(path) == "otf"@ ==> dev_mime_spec(path) == "font/otf"@,
        lower_extension(path) == "mp4"@ ==> dev_mime_spec(path) == "video/mp4"@,
        lower_extension(path) == "webm"@ ==> dev_mime_spec(path) == "video/webm"@,
        lower_extension(path) == "mp3"@ ==> dev_mime_spec(path) == "audio/mpeg"@,
        lower_extension(path) == "wav"@ ==> dev_mime_spec(path) == "audio/wav"@,
        lower_extension(path) == "pdf"@ ==> dev_mime_spec(path) == "application/pdf"@,
        lower_extension(path) == "txt"@ ==> dev_mime_spec(path) == "text/plain; charset=utf-8"@,
        lower_extension(path) == "md"@ ==> dev_mime_spec(path) == "text/markdown; charset=utf-8"@,
        lower_extension(path) == "wasm"@ ==> dev_mime_spec(path) == "application/wasm"@,
        lower_extension(path) == "map"@ ==> dev_mime_spec(path) == "application/json"@,
        ({
            let e = lower_extension(path);
            e != "html"@ && e != "htm"@ && e != "css"@ && e != "js"@ && e != "mjs"@ && e != "json"@ && e != "xml"@ && e != "svg"@ && e != "png"@ && e != "jpg"@ && e != "jpeg"@ && e != "gif"@ && e != "webp"@ && e != "ico"@ && e != "woff"@ && e != "woff2"@ && e != "ttf"@ && e != "otf"@ && e != "mp4"@ && e != "webm"@ && e != "mp3"@ && e != "wav"@ && e != "pdf"@ && e != "txt"@ && e != "md"@ && e != "wasm"@ && e != "map"@
        }) ==> dev_mime_spec(path) == mime_guess_spec(path),
{
    lemma_extension_literals();
}

/// The extensions whose change reloads the page are exactly those of
/// pages, styles, scripts, data, components, images and WebAssembly:
/// html, htm, css, js, mjs, json, nc, svg, png, jpg, jpeg, gif, webp, wasm.
#[verifier::spinoff_prover]
pub proof fn law_reload_extensions(e: Seq<char>)
    ensures
        e == "html"@ ==> reload_extension_spec(e),
        e == "htm"@ ==> reload_extension_spec(e),
        e == "css"@ ==> reload_extension_spec(e),
        e == "js"@ ==> reload_extension_spec(e),
        e == "mjs"@ ==> reload_extension_spec(e),
        e == "json"@ ==> reload_extension_spec(e),
        e == "nc"@ ==> reload_extension_spec(e),
        e == "svg"@ ==> reload_extension_spec(e),
        e == "png"@ ==> reload_extension_spec(e),
        e == "jpg"@ ==> reload_extension_spec(e),
        e == "jpeg"@ ==> reload_extension_spec(e),
        e == "gif"@ ==> reload_extension_spec(e),
        e == "webp"@ ==> reload_extension_spec(e),
        e == "wasm"@ ==> reload_extension_spec(e),
        (e != "html"@ && e != "htm"@ && e != "css"@ && e != "js"@ && e != "mjs"@ && e != "json"@ && e != "nc"@ && e != "svg"@ && e != "png"@ && e != "jpg"@ && e != "jpeg"@ && e != "gif"@ && e != "webp"@ && e != "wasm"@) ==> !reload_extension_spec(e),
{
    lemma_extension_literals();
}

/// Whether a change to a file with this extension (in any case) reloads the page.
pub fn is_reload_extension(ext: &str) -> (r: bool)
    ensures
        r == reload_extension_spec(lowercase(ext@)),
{
    let ev = chars_of(ext);
    let l = to_lowercase(ev.as_slice());
    let e = l.as_slice();
    eq_str(e, "html") || eq_str(e, "htm") || eq_str(e, "css") || eq_str(e, "js") || eq_str(e, "mjs")
        || eq_str(e, "json") || eq_str(e, "nc") || eq_str(e, "svg") || eq_str(e, "png") || eq_str(
        e,
        "jpg",
    ) || eq_str(e, "jpeg") || eq_str(e, "gif") || eq_str(e, "webp") || eq_str(e, "wasm")
}


/// `s` without its trailing `\r`s.
pub open spec fn strip_cr(s: Seq<char>) -> Seq<char>
    decreases s.len(),
{
    if s.len() > 0 && s.last() == '\r' {
        strip_cr(s.drop_last())
    } else {
        s
    }
}

/// What the handshake has read so far: an `Upgrade: websocket` header, a
/// `Connection` header listing `upgrade`, and the last `Sec-WebSocket-Key`.
pub struct HandshakeHeaders {
    pub upgrade: bool,
    pub connection_upgrade: bool,
    pub key: Option<Seq<char>>,
}

/// A `Connection` value lists `upgrade` (in any ASCII case) among its
/// comma-separated parts.
pub open spec fn lists_upgrade(value: Seq<char>) -> bool {
    exists|i: int|
        0 <= i < split_spec(value, ',').len() && eq_ignore_case(
            trim_spec(#[trigger] split_spec(value, ',')[i]),
            "upgrade"@,
        )
}

/// The state after one header line (one without `:` changes nothing; a
/// later header of a name replaces an earlier one).
pub open spec fn header_step(st: HandshakeHeaders, line: Seq<char>) -> HandshakeHeaders {
    if line.contains(':') {
        let name = trim_spec(before_char(line, ':')).map_values(|c: char| ascii_lower(c));
        let value = trim_spec(after_char(line, ':'));
        if name == "upgrade"@ {
            HandshakeHeaders { upgrade: eq_ignore_case(value, "websocket"@), ..st }
        } else if name == "connection"@ {
            HandshakeHeaders { connection_upgrade: lists_upgrade(value), ..st }
        } else if name == "sec-websocket-key"@ {
            HandshakeHeaders { key: Some(value), ..st }
        } else {
            st
        }
    } else {
        st
    }
}

/// The state after the given header lines.
pub open spec fn header_state(lines: Seq<Seq<char>>) -> HandshakeHeaders
    decreases lines.len(),
{
    if lines.len() == 0 {
        HandshakeHeaders { upgrade: false, connection_upgrade: false, key: None }
    } else {
        header_step(header_state(lines.drop_last()), strip_cr(lines.last()))
    }
}

/// Why a handshake was refused.
#[derive(Debug)]
pub enum HandshakeRejection {
    /// No `Upgrade: websocket` or no `Connection: upgrade`.
    MissingUpgrade,
    /// No non-empty `Sec-WebSocket-Key`.
    MissingKey,
}

/// The `101 Switching Protocols` reply for a key.
pub open spec fn switching_reply_spec(key: Seq<char>) -> Seq<char> {
    "HTTP/1.1 101 Switching Protocols\r\nUpgrade: websocket\r\nConnection: Upgrade\r\nSec-WebSocket-Accept: "@
        + websocket_accept_spec(key) + "\r\n\r\n"@
}

/// The answer to an upgrade request's header text: its lines after the
/// request line are read as headers.
pub open spec fn handshake_spec(request: Seq<char>) -> Result<Seq<char>, HandshakeRejection> {
    let st = header_state(split_spec(request, '\n').skip(1));
    if !st.upgrade || !st.connection_upgrade {
        Err(HandshakeRejection::MissingUpgrade)
    } else if st.key is Some && st.key->0.len() > 0 {
        Ok(switching_reply_spec(st.key->0))
    } else {
        Err(HandshakeRejection::MissingKey)
    }
}

fn strip_cr_exec(s: &[char]) -> (r: Vec<char>)
    ensures
        r@ == strip_cr(s@),
{
    let mut n = s.len();
    assert(s@.take(n as int) =~= s@);
    while n > 0 && s[n - 1] == '\r'
        invariant
            n <= s@.len(),
            strip_cr(s@.take(n as int)) == strip_cr(s@),
        decreases n,
    {
        assert(s@.take(n as int).drop_last() =~= s@.take(n as int - 1));
        n = n - 1;
    }
    assert(s@.take(s@.len() as int) =~= s@);
    slice_chars(s, 0, n)
}

fn lists_upgrade_exec(value: &[char]) -> (r: bool)
    ensures
        r == lists_upgrade(value@),
{
    let parts = split_char(value, ',');
    let mut i: usize = 0;
    while i < parts.len()
        invariant
            0 <= i <= parts@.len(),
            views(parts@) == split_spec(value@, ','),
            forall|j: int| 0 <= j < i ==> !eq_ignore_case(trim_spec(#[trigger] split_spec(value@, ',')[j]), "upgrade"@),
        decreases parts@.len() - i,
    {
        assert(views(parts@)[i as int] == parts@[i as int]@);
        let t = trim(parts[i].as_slice());
        if eq_ignore_case_exec(t.as_slice(), "upgrade") {
            return true;
        }
        i = i + 1;
    }
    false
}

fn step_exec(upgrade: &mut bool, connection: &mut bool, key: &mut Option<Vec<char>>, line: &[char])
    ensures
        ({
            let st = header_step(HandshakeHeaders { upgrade: *old(upgrade), connection_upgrade: *old(connection), key: match *old(key) { Some(k) => Some(k@), None => None } }, line@);
            &&& *final(upgrade) == st.upgrade
            &&& *final(connection) == st.connection_upgrade
            &&& match *final(key) { Some(k) => st.key == Some(k@), None => st.key is None }
        }),
{
    let (before, after) = split_once(line, ':');
    if let Some(a) = after {
        let name = to_ascii_lowercase(trim(before.as_slice()).as_slice());
        let value = trim(a.as_slice());
        if eq_str(name.as_slice(), "upgrade") {
            *upgrade = eq_ignore_case_exec(value.as_slice(), "websocket");
        } else if eq_str(name.as_slice(), "connection") {
            *connection = lists_upgrade_exec(value.as_slice());
        } else if eq_str(name.as_slice(), "sec-websocket-key") {
            *key = Some(value);
        }
    }
}

/// Reads an upgrade request's headers and answers it: the `101` reply with
/// the accept key, or why it is refused.
pub fn handshake_reply(request: &str) -> (r: Result<String, HandshakeRejection>)
    ensures
        match handshake_spec(request@) {
            Ok(t) => r is Ok && r->Ok_0@ == t,
            Err(e) => r == Err::<String, HandshakeRejection>(e),
        },
{
    let text = chars_of(request);
    let pieces = split_char(text.as_slice(), '\n');
    let ghost lines = split_spec(request@, '\n').skip(1);
    proof {
        crate::text::lemma_split_nonempty(request@, '\n');
    }
    let mut upgrade = false;
    let mut connection = false;
    let mut key: Option<Vec<char>> = None;
    let mut i: usize = 1;
    assert(lines.take(0) =~= Seq::<Seq<char>>::empty());
    while i < pieces.len()
        invariant
            1 <= i <= pieces@.len(),
            views(pieces@) == split_spec(request@, '\n'),
            lines == split_spec(request@, '\n').skip(1),
            ({
                let st = header_state(lines.take(i - 1));
                &&& upgrade == st.upgrade
                &&& connection == st.connection_upgrade
                &&& match key { Some(k) => st.key == Some(k@), None => st.key is None }
            }),
        decreases pieces@.len() - i,
    {
        assert(lines.take(i as int).drop_last() =~= lines.take(i - 1));
        assert(lines.take(i as int).last() == pieces@[i as int]@);
        let line = strip_cr_exec(pieces[i].as_slice());
        step_exec(&mut upgrade, &mut connection, &mut key, line.as_slice());
        i = i + 1;
    }
    assert(lines.take(pieces@.len() - 1) =~= lines);
    if !upgrade || !connection {
        return Err(HandshakeRejection::MissingUpgrade);
    }
    match key {
        Some(k) => {
            if k.len() == 0 {
                return Err(HandshakeRejection::MissingKey);
            }
            let ks = string_from(k.as_slice());
            let accept = compute_websocket_accept(ks.as_str());
            let mut reply = chars_of("HTTP/1.1 101 Switching Protocols\r\nUpgrade: websocket\r\nConnection: Upgrade\r\nSec-WebSocket-Accept: ");
            push_str(&mut reply, accept.as_str());
            push_str(&mut reply, "\r\n\r\n");
            Ok(string_from(reply.as_slice()))
        },
        None => Err(HandshakeRejection::MissingKey),
    }
}

} // verus!
