//! The `nefu://` custom protocol: request parsing, responses, MIME types and
//! the handler that serves files out of a resource pack.
//!
//! ```text
//! nefu://localhost/path/to/resource[?query][#fragment]
//! ```

use vstd::prelude::*;
use crate::text::{
    chars_of, concat, find_char, has_prefix, join, join_spec, owned, push_all, push_str,
    replace_spec, replace_str, slice_chars, split_char, split_spec, starts_with, string_from,
    lowercase, to_lowercase, seq_eq, eq_str, views,
};
use crate::kv::{kv_get, kv_insert, map_of};

verus! {

/// Default protocol name.
pub const DEFAULT_PROTOCOL: &'static str = "nefu";

/// Default host name.
pub const DEFAULT_HOST: &'static str = "localhost";

// ==================== Paths, queries, escaping ====================

/// The result of `Path::extension` on a path, as text.
pub uninterp spec fn path_extension_spec(p: Seq<char>) -> Option<Seq<char>>;

/// `Path::new(p).extension()`, as text. Which part of a path counts as the
/// extension (dots at the start of a name, `..`, trailing separators) is
/// left to std and only named here.
#[verifier::external_body]
pub(crate) fn path_extension(p: &str) -> (r: Option<String>)
    ensures
        match r {
            Some(e) => path_extension_spec(p@) == Some(e@),
            None => path_extension_spec(p@) is None,
        },
{
    std::path::Path::new(p).extension().map(|e| e.to_string_lossy().into_owned())
}

/// The extension of `p`, or the empty text where it has none.
pub open spec fn extension_or_empty(p: Seq<char>) -> Seq<char> {
    match path_extension_spec(p) {
        Some(e) => e,
        None => Seq::<char>::empty(),
    }
}

fn extension_chars(p: &str) -> (r: Vec<char>)
    ensures
        r@ == extension_or_empty(p@),
{
    match path_extension(p) {
        Some(e) => chars_of(e.as_str()),
        None => Vec::new(),
    }
}

/// The content type served for a lowercase extension.
pub open spec fn content_type_for(ext: Seq<char>) -> Seq<char> {
    if ext == "html"@ || ext == "htm"@ {
        "text/html; charset=utf-8"@
    } else if ext == "css"@ {
        "text/css; charset=utf-8"@
    } else if ext == "js"@ || ext == "mjs"@ {
        "application/javascript; charset=utf-8"@
    } else if ext == "json"@ {
        "application/json; charset=utf-8"@
    } else if ext == "xml"@ {
        "application/xml; charset=utf-8"@
    } else if ext == "svg"@ {
        "image/svg+xml"@
    } else if ext == "png"@ {
        "image/png"@
    } else if ext == "jpg"@ || ext == "jpeg"@ {
        "image/jpeg"@
    } else if ext == "gif"@ {
        "image/gif"@
    } else if ext == "webp"@ {
        "image/webp"@
    } else if ext == "avif"@ {
        "image/avif"@
    } else if ext == "ico"@ {
        "image/x-icon"@
    } else if ext == "bmp"@ {
        "image/bmp"@
    } else if ext == "woff"@ {
        "font/woff"@
    } else if ext == "woff2"@ {
        "font/woff2"@
    } else if ext == "ttf"@ {
        "font/ttf"@
    } else if ext == "otf"@ {
        "font/otf"@
    } else if ext == "eot"@ {
        "application/vnd.ms-fontobject"@
    } else if ext == "mp4"@ {
        "video/mp4"@
    } else if ext == "webm"@ {
        "video/webm"@
    } else if ext == "ogg"@ {
        "video/ogg"@
    } else if ext == "mp3"@ {
        "audio/mpeg"@
    } else if ext == "wav"@ {
        "audio/wav"@
    } else if ext == "flac"@ {
        "audio/flac"@
    } else if ext == "aac"@ {
        "audio/aac"@
    } else if ext == "pdf"@ {
        "application/pdf"@
    } else if ext == "txt"@ || ext == "text"@ {
        "text/plain; charset=utf-8"@
    } else if ext == "md"@ || ext == "markdown"@ {
        "text/markdown; charset=utf-8"@
    } else if ext == "csv"@ {
        "text/csv; charset=utf-8"@
    } else if ext == "wasm"@ {
        "application/wasm"@
    } else if ext == "map"@ {
        "application/json"@
    } else if ext == "yaml"@ || ext == "yml"@ {
        "application/x-yaml"@
    } else if ext == "toml"@ {
        "application/toml"@
    } else {
        "application/octet-stream"@
    }
}

/// The content type that a path is served with, by its extension in any
/// case: each extension of the table with its type (`svg` as
/// `image/svg+xml`, `png` as `image/png`, and so on), anything else as
/// `application/octet-stream`.
#[verifier::spinoff_prover]
pub proof fn law_content_type_by_extension(path: Seq<char>)
    ensures
        lowercase(extension_or_empty(path)) == "html"@ ==> guess_content_type_spec(path) == "text/html; charset=utf-8"@,
        lowercase(extension_or_empty(path)) == "htm"@ ==> guess_content_type_spec(path) == "text/html; charset=utf-8"@,
        lowercase(extension_or_empty(path)) == "css"@ ==> guess_content_type_spec(path) == "text/css; charset=utf-8"@,
        lowercase(extension_or_empty(path)) == "js"@ ==> guess_content_type_spec(path) == "application/javascript; charset=utf-8"@,
        lowercase(extension_or_empty(path)) == "mjs"@ ==> guess_content_type_spec(path) == "application/javascript; charset=utf-8"@,
        lowercase(extension_or_empty(path)) == "json"@ ==> guess_content_type_spec(path) == "application/json; charset=utf-8"@,
        lowercase(extension_or_empty(path)) == "xml"@ ==> guess_content_type_spec(path) == "application/xml; charset=utf-8"@,
        lowercase(extension_or_empty(path)) == "svg"@ ==> guess_content_type_spec(path) == "image/svg+xml"@,
        lowercase(extension_or_empty(path)) == "png"@ ==> guess_content_type_spec(path) == "image/png"@,
        lowercase(extension_or_empty(path)) == "jpg"@ ==> guess_content_type_spec(path) == "image/jpeg"@,
        lowercase(extension_or_empty(path)) == "jpeg"@ ==> guess_content_type_spec(path) == "image/jpeg"@,
        lowercase(extension_or_empty(path)) == "gif"@ ==> guess_content_type_spec(path) == "image/gif"@,
        lowercase(extension_or_empty(path)) == "webp"@ ==> guess_content_type_spec(path) == "image/webp"@,
        lowercase(extension_or_empty(path)) == "avif"@ ==> guess_content_type_spec(path) == "image/avif"@,
        lowercase(extension_or_empty(path)) == "ico"@ ==> guess_content_type_spec(path) == "image/x-icon"@,
        lowercase(extension_or_empty(path)) == "bmp"@ ==> guess_content_type_spec(path) == "image/bmp"@,
        lowercase(extension_or_empty(path)) == "woff"@ ==> guess_content_type_spec(path) == "font/woff"@,
        lowercase(extension_or_empty(path)) == "woff2"@ ==> guess_content_type_spec(path) == "font/woff2"@,
        lowercase(extension_or_empty(path)) == "ttf"@ ==> guess_content_type_spec(path) == "font/ttf"@,
        lowercase(extension_or_empty(path)) == "otf"@ ==> guess_content_type_spec(path) == "font/otf"@,
        lowercase(extension_or_empty(path)) == "eot"@ ==> guess_content_type_spec(path) == "application/vnd.ms-fontobject"@,
        lowercase(extension_or_empty(path)) == "mp4"@ ==> guess_content_type_spec(path) == "video/mp4"@,
        lowercase(extension_or_empty(path)) == "webm"@ ==> guess_content_type_spec(path) == "video/webm"@,
        lowercase(extension_or_empty(path)) == "ogg"@ ==> guess_content_type_spec(path) == "video/ogg"@,
        lowercase(extension_or_empty(path)) == "mp3"@ ==> guess_content_type_spec(path) == "audio/mpeg"@,
        lowercase(extension_or_empty(path)) == "wav"@ ==> guess_content_type_spec(path) == "audio/wav"@,
        lowercase(extension_or_empty(path)) == "flac"@ ==> guess_content_type_spec(path) == "audio/flac"@,
        lowercase(extension_or_empty(path)) == "aac"@ ==> guess_content_type_spec(path) == "audio/aac"@,
        lowercase(extension_or_empty(path)) == "pdf"@ ==> guess_content_type_spec(path) == "application/pdf"@,
        lowercase(extension_or_empty(path)) == "txt"@ ==> guess_content_type_spec(path) == "text/plain; charset=utf-8"@,
        lowercase(extension_or_empty(path)) == "text"@ ==> guess_content_type_spec(path) == "text/plain; charset=utf-8"@,
        lowercase(extension_or_empty(path)) == "md"@ ==> guess_content_type_spec(path) == "text/markdown; charset=utf-8"@,
        lowercase(extension_or_empty(path)) == "markdown"@ ==> guess_content_type_spec(path) == "text/markdown; charset=utf-8"@,
        lowercase(extension_or_empty(path)) == "csv"@ ==> guess_content_type_spec(path) == "text/csv; charset=utf-8"@,
        lowercase(extension_or_empty(path)) == "wasm"@ ==> guess_content_type_spec(path) == "application/wasm"@,
        lowercase(extension_or_empty(path)) == "map"@ ==> guess_content_type_spec(path) == "application/json"@,
        lowercase(extension_or_empty(path)) == "yaml"@ ==> guess_content_type_spec(path) == "application/x-yaml"@,
        lowercase(extension_or_empty(path)) == "yml"@ ==> guess_content_type_spec(path) == "application/x-yaml"@,
        lowercase(extension_or_empty(path)) == "toml"@ ==> guess_content_type_spec(path) == "application/toml"@,
        ({
            let e = lowercase(extension_or_empty(path));
            e != "html"@ && e != "htm"@ && e != "css"@ && e != "js"@ && e != "mjs"@ && e != "json"@ && e != "xml"@ && e != "svg"@ && e != "png"@ && e != "jpg"@ && e != "jpeg"@ && e != "gif"@ && e != "webp"@ && e != "avif"@ && e != "ico"@ && e != "bmp"@ && e != "woff"@ && e != "woff2"@ && e != "ttf"@ && e != "otf"@ && e != "eot"@ && e != "mp4"@ && e != "webm"@ && e != "ogg"@ && e != "mp3"@ && e != "wav"@ && e != "flac"@ && e != "aac"@ && e != "pdf"@ && e != "txt"@ && e != "text"@ && e != "md"@ && e != "markdown"@ && e != "csv"@ && e != "wasm"@ && e != "map"@ && e != "yaml"@ && e != "yml"@ && e != "toml"@
        }) ==> guess_content_type_spec(path) == "application/octet-stream"@,
{
    reveal_strlit("aac");
    assert("aac"@.len() == 3 && "aac"@[0] == 'a' && "aac"@[1] == 'a' && "aac"@[2] == 'c');
    reveal_strlit("avif");
    assert("avif"@.len() == 4 && "avif"@[0] == 'a' && "avif"@[1] == 'v' && "avif"@[2] == 'i' && "avif"@[3] == 'f');
    reveal_strlit("bmp");
    assert("bmp"@.len() == 3 && "bmp"@[0] == 'b' && "bmp"@[1] == 'm' && "bmp"@[2] == 'p');
    reveal_strlit("css");
    assert("css"@.len() == 3 && "css"@[0] == 'c' && "css"@[1] == 's' && "css"@[2] == 's');
    reveal_strlit("csv");
    assert("csv"@.len() == 3 && "csv"@[0] == 'c' && "csv"@[1] == 's' && "csv"@[2] == 'v');
    reveal_strlit("eot");
    assert("eot"@.len() == 3 && "eot"@[0] == 'e' && "eot"@[1] == 'o' && "eot"@[2] == 't');
    reveal_strlit("flac");
    assert("flac"@.len() == 4 && "flac"@[0] == 'f' && "flac"@[1] == 'l' && "flac"@[2] == 'a' && "flac"@[3] == 'c');
    reveal_strlit("gif");
    assert("gif"@.len() == 3 && "gif"@[0] == 'g' && "gif"@[1] == 'i' && "gif"@[2] == 'f');
    reveal_strlit("htm");
    assert("htm"@.len() == 3 && "htm"@[0] == 'h' && "htm"@[1] == 't' && "htm"@[2] == 'm');
    reveal_strlit("html");
    assert("html"@.len() == 4 && "html"@[0] == 'h' && "html"@[1] == 't' && "html"@[2] == 'm' && "html"@[3] == 'l');
    reveal_strlit("ico");
    assert("ico"@.len() == 3 && "ico"@[0] == 'i' && "ico"@[1] == 'c' && "ico"@[2] == 'o');
    reveal_strlit("jpeg");
    assert("jpeg"@.len() == 4 && "jpeg"@[0] == 'j' && "jpeg"@[1] == 'p' && "jpeg"@[2] == 'e' && "jpeg"@[3] == 'g');
    reveal_strlit("jpg");
    assert("jpg"@.len() == 3 && "jpg"@[0] == 'j' && "jpg"@[1] == 'p' && "jpg"@[2] == 'g');
    reveal_strlit("js");
    assert("js"@.len() == 2 && "js"@[0] == 'j' && "js"@[1] == 's');
    reveal_strlit("json");
    assert("json"@.len() == 4 && "json"@[0] == 'j' && "json"@[1] == 's' && "json"@[2] == 'o' && "json"@[3] == 'n');
    reveal_strlit("map");
    assert("map"@.len() == 3 && "map"@[0] == 'm' && "map"@[1] == 'a' && "map"@[2] == 'p');
    reveal_strlit("markdown");
    assert("markdown"@.len() == 8 && "markdown"@[0] == 'm' && "markdown"@[1] == 'a' && "markdown"@[2] == 'r' && "markdown"@[3] == 'k' && "markdown"@[4] == 'd' && "markdown"@[5] == 'o' && "markdown"@[6] == 'w' && "markdown"@[7] == 'n');
    reveal_strlit("md");
    assert("md"@.len() == 2 && "md"@[0] == 'm' && "md"@[1] == 'd');
    reveal_strlit("mjs");
    assert("mjs"@.len() == 3 && "mjs"@[0] == 'm' && "mjs"@[1] == 'j' && "mjs"@[2] == 's');
    reveal_strlit("mp3");
    assert("mp3"@.len() == 3 && "mp3"@[0] == 'm' && "mp3"@[1] == 'p' && "mp3"@[2] == '3');
    reveal_strlit("mp4");
    assert("mp4"@.len() == 3 && "mp4"@[0] == 'm' && "mp4"@[1] == 'p' && "mp4"@[2] == '4');
    reveal_strlit("ogg");
    assert("ogg"@.len() == 3 && "ogg"@[0] == 'o' && "ogg"@[1] == 'g' && "ogg"@[2] == 'g');
    reveal_strlit("otf");
    assert("otf"@.len() == 3 && "otf"@[0] == 'o' && "otf"@[1] == 't' && "otf"@[2] == 'f');
    reveal_strlit("pdf");
    assert("pdf"@.len() == 3 && "pdf"@[0] == 'p' && "pdf"@[1] == 'd' && "pdf"@[2] == 'f');
    reveal_strlit("png");
    assert("png"@.len() == 3 && "png"@[0] == 'p' && "png"@[1] == 'n' && "png"@[2] == 'g');
    reveal_strlit("svg");
    assert("svg"@.len() == 3 && "svg"@[0] == 's' && "svg"@[1] == 'v' && "svg"@[2] == 'g');
    reveal_strlit("text");
    assert("text"@.len() == 4 && "text"@[0] == 't' && "text"@[1] == 'e' && "text"@[2] == 'x' && "text"@[3] == 't');
    reveal_strlit("toml");
    assert("toml"@.len() == 4 && "toml"@[0] == 't' && "toml"@[1] == 'o' && "toml"@[2] == 'm' && "toml"@[3] == 'l');
    reveal_strlit("ttf");
    assert("ttf"@.len() == 3 && "ttf"@[0] == 't' && "ttf"@[1] == 't' && "ttf"@[2] == 'f');
    reveal_strlit("txt");
    assert("txt"@.len() == 3 && "txt"@[0] == 't' && "txt"@[1] == 'x' && "txt"@[2] == 't');
    reveal_strlit("wasm");
    assert("wasm"@.len() == 4 && "wasm"@[0] == 'w' && "wasm"@[1] == 'a' && "wasm"@[2] == 's' && "wasm"@[3] == 'm');
    reveal_strlit("wav");
    assert("wav"@.len() == 3 && "wav"@[0] == 'w' && "wav"@[1] == 'a' && "wav"@[2] == 'v');
    reveal_strlit("webm");
    assert("webm"@.len() == 4 && "webm"@[0] == 'w' && "webm"@[1] == 'e' && "webm"@[2] == 'b' && "webm"@[3] == 'm');
    reveal_strlit("webp");
    assert("webp"@.len() == 4 && "webp"@[0] == 'w' && "webp"@[1] == 'e' && "webp"@[2] == 'b' && "webp"@[3] == 'p');
    reveal_strlit("woff");
    assert("woff"@.len() == 4 && "woff"@[0] == 'w' && "woff"@[1] == 'o' && "woff"@[2] == 'f' && "woff"@[3] == 'f');
    reveal_strlit("woff2");
    assert("woff2"@.len() == 5 && "woff2"@[0] == 'w' && "woff2"@[1] == 'o' && "woff2"@[2] == 'f' && "woff2"@[3] == 'f' && "woff2"@[4] == '2');
    reveal_strlit("xml");
    assert("xml"@.len() == 3 && "xml"@[0] == 'x' && "xml"@[1] == 'm' && "xml"@[2] == 'l');
    reveal_strlit("yaml");
    assert("yaml"@.len() == 4 && "yaml"@[0] == 'y' && "yaml"@[1] == 'a' && "yaml"@[2] == 'm' && "yaml"@[3] == 'l');
    reveal_strlit("yml");
    assert("yml"@.len() == 3 && "yml"@[0] == 'y' && "yml"@[1] == 'm' && "yml"@[2] == 'l');
}

/// Looks `ext` up in the content-type table.
pub fn content_type_of(ext: &[char]) -> (r: String)
    ensures
        r@ == content_type_for(ext@),
{
    if eq_str(ext, "html") || eq_str(ext, "htm") {
        owned("text/html; charset=utf-8")
    } else if eq_str(ext, "css") {
        owned("text/css; charset=utf-8")
    } else if eq_str(ext, "js") || eq_str(ext, "mjs") {
        owned("application/javascript; charset=utf-8")
    } else if eq_str(ext, "json") {
        owned("application/json; charset=utf-8")
    } else if eq_str(ext, "xml") {
        owned("application/xml; charset=utf-8")
    } else if eq_str(ext, "svg") {
        owned("image/svg+xml")
    } else if eq_str(ext, "png") {
        owned("image/png")
    } else if eq_str(ext, "jpg") || eq_str(ext, "jpeg") {
        owned("image/jpeg")
    } else if eq_str(ext, "gif") {
        owned("image/gif")
    } else if eq_str(ext, "webp") {
        owned("image/webp")
    } else if eq_str(ext, "avif") {
        owned("image/avif")
    } else if eq_str(ext, "ico") {
        owned("image/x-icon")
    } else if eq_str(ext, "bmp") {
        owned("image/bmp")
    } else if eq_str(ext, "woff") {
        owned("font/woff")
    } else if eq_str(ext, "woff2") {
        owned("font/woff2")
    } else if eq_str(ext, "ttf") {
        owned("font/ttf")
    } else if eq_str(ext, "otf") {
        owned("font/otf")
    } else if eq_str(ext, "eot") {
        owned("application/vnd.ms-fontobject")
    } else if eq_str(ext, "mp4") {
        owned("video/mp4")
    } else if eq_str(ext, "webm") {
        owned("video/webm")
    } else if eq_str(ext, "ogg") {
        owned("video/ogg")
    } else if eq_str(ext, "mp3") {
        owned("audio/mpeg")
    } else if eq_str(ext, "wav") {
        owned("audio/wav")
    } else if eq_str(ext, "flac") {
        owned("audio/flac")
    } else if eq_str(ext, "aac") {
        owned("audio/aac")
    } else if eq_str(ext, "pdf") {
        owned("application/pdf")
    } else if eq_str(ext, "txt") || eq_str(ext, "text") {
        owned("text/plain; charset=utf-8")
    } else if eq_str(ext, "md") || eq_str(ext, "markdown") {
        owned("text/markdown; charset=utf-8")
    } else if eq_str(ext, "csv") {
        owned("text/csv; charset=utf-8")
    } else if eq_str(ext, "wasm") {
        owned("application/wasm")
    } else if eq_str(ext, "map") {
        owned("application/json")
    } else if eq_str(ext, "yaml") || eq_str(ext, "yml") {
        owned("application/x-yaml")
    } else if eq_str(ext, "toml") {
        owned("application/toml")
    } else {
        owned("application/octet-stream")
    }
}

/// The content type of `path`, by its lowercased extension.
pub open spec fn guess_content_type_spec(path: Seq<char>) -> Seq<char> {
    content_type_for(lowercase(extension_or_empty(path)))
}

/// Guesses the content type of `path` from its extension.
pub fn guess_content_type(path: &str) -> (r: String)
    ensures
        r@ == guess_content_type_spec(path@),
{
    let ext = extension_chars(path);
    let lower = to_lowercase(ext.as_slice());
    content_type_of(lower.as_slice())
}

/// `s` with `&`, `<`, `>`, `"` and `'` replaced by their HTML entities.
pub open spec fn html_escape_spec(s: Seq<char>) -> Seq<char> {
    replace_spec(
        replace_spec(
            replace_spec(replace_spec(replace_spec(s, "&"@, "&amp;"@), "<"@, "&lt;"@), ">"@, "&gt;"@),
            "\""@,
            "&quot;"@,
        ),
        "'"@,
        "&#x27;"@,
    )
}

/// Escapes `s` for HTML text and attributes.
pub fn html_escape(s: &str) -> (r: String)
    ensures
        r@ == html_escape_spec(s@),
{
    proof {
        reveal_strlit("&");
        reveal_strlit("<");
        reveal_strlit(">");
        reveal_strlit("\"");
        reveal_strlit("'");
    }
    let v = chars_of(s);
    let a = replace_str(v.as_slice(), "&", "&amp;");
    let b = replace_str(a.as_slice(), "<", "&lt;");
    let c = replace_str(b.as_slice(), ">", "&gt;");
    let d = replace_str(c.as_slice(), "\"", "&quot;");
    let e = replace_str(d.as_slice(), "'", "&#x27;");
    string_from(e.as_slice())
}

/// The components that remain of a `/`-separated path after `.` and empty
/// components are dropped and each `..` removes the component before it.
pub open spec fn resolve_spec(cs: Seq<Seq<char>>) -> Seq<Seq<char>>
    decreases cs.len(),
{
    if cs.len() == 0 {
        Seq::empty()
    } else {
        let r = resolve_spec(cs.drop_last());
        let c = cs.last();
        if c == "."@ || c.len() == 0 {
            r
        } else if c == ".."@ {
            if r.len() > 0 {
                r.drop_last()
            } else {
                r
            }
        } else {
            r.push(c)
        }
    }
}

/// Resolving never leaves a `.`, `..` or empty component, so a normalized
/// path cannot climb out of the resource root; it keeps the other
/// components in order, at most as many as there were.
pub proof fn law_resolve_components(cs: Seq<Seq<char>>)
    ensures
        forall|i: int|
            0 <= i < resolve_spec(cs).len() ==> #[trigger] resolve_spec(cs)[i] != ".."@ && resolve_spec(cs)[i]
                != "."@ && resolve_spec(cs)[i].len() > 0,
        resolve_spec(cs).len() <= cs.len(),
        (forall|i: int| 0 <= i < cs.len() ==> #[trigger] cs[i] != ".."@ && cs[i] != "."@ && cs[i].len() > 0)
            ==> resolve_spec(cs) == cs,
    decreases cs.len(),
{
    if cs.len() > 0 {
        let d = cs.drop_last();
        law_resolve_components(d);
        let r = resolve_spec(d);
        if forall|i: int| 0 <= i < cs.len() ==> #[trigger] cs[i] != ".."@ && cs[i] != "."@ && cs[i].len() > 0 {
            assert forall|i: int| 0 <= i < d.len() implies #[trigger] d[i] != ".."@ && d[i] != "."@ && d[i].len()
                > 0 by {
                assert(d[i] == cs[i]);
            }
            assert(cs[cs.len() - 1] == cs.last());
            assert(d.push(cs.last()) =~= cs);
        }
        let c = cs.last();
        if !(c == "."@ || c.len() == 0) && c == ".."@ && r.len() > 0 {
            assert forall|i: int| 0 <= i < r.drop_last().len() implies #[trigger] r.drop_last()[i] != ".."@ by {
                assert(r.drop_last()[i] == r[i]);
            }
        }
    }
}

/// A resource path with backslashes made slashes, leading and trailing
/// slashes dropped and `.`/`..` resolved.
pub open spec fn normalize_path_spec(path: Seq<char>) -> Seq<char> {
    join_spec(resolve_spec(split_spec(replace_spec(path, "\\"@, "/"@), '/')), "/"@)
}

/// Normalizes a resource path.
pub fn normalize_path(path: &str) -> (r: String)
    ensures
        r@ == normalize_path_spec(path@),
{
    proof {
        reveal_strlit("\\");
        reveal_strlit(".");
        reveal_strlit("..");
    }
    let v = chars_of(path);
    let slashed = replace_str(v.as_slice(), "\\", "/");
    let comps = split_char(slashed.as_slice(), '/');
    let mut resolved: Vec<Vec<char>> = Vec::new();
    let mut i: usize = 0;
    while i < comps.len()
        invariant
            0 <= i <= comps@.len(),
            views(resolved@) == resolve_spec(views(comps@).subrange(0, i as int)),
        decreases comps@.len() - i,
    {
        let ghost pre = views(comps@).subrange(0, i as int + 1);
        assert(pre.drop_last() =~= views(comps@).subrange(0, i as int));
        assert(pre.last() == comps@[i as int]@);
        let c = &comps[i];
        if eq_str(c.as_slice(), ".") || c.len() == 0 {
        } else if eq_str(c.as_slice(), "..") {
            if resolved.len() > 0 {
                let ghost before = views(resolved@);
                resolved.pop();
                assert(views(resolved@) =~= before.drop_last());
            }
        } else {
            let ghost before = views(resolved@);
            let piece = slice_chars(c.as_slice(), 0, c.len());
            assert(piece@ =~= comps@[i as int]@);
            resolved.push(piece);
            assert(views(resolved@) =~= before.push(comps@[i as int]@));
        }
        i = i + 1;
    }
    assert(views(comps@).subrange(0, comps@.len() as int) =~= views(comps@));
    let sep = chars_of("/");
    let joined = join(&resolved, sep.as_slice());
    string_from(joined.as_slice())
}

/// The value of an ASCII hexadecimal digit.
pub open spec fn hex_value(c: char) -> Option<nat> {
    if '0' <= c && c <= '9' {
        Some(((c as nat) - ('0' as nat)) as nat)
    } else if 'a' <= c && c <= 'f' {
        Some(((c as nat) - ('a' as nat) + 10) as nat)
    } else if 'A' <= c && c <= 'F' {
        Some(((c as nat) - ('A' as nat) + 10) as nat)
    } else {
        None
    }
}

pub(crate) fn hex_digit(c: char) -> (r: Option<u8>)
    ensures
        match hex_value(c) {
            Some(v) => r == Some(v as u8) && v < 16,
            None => r is None,
        },
{
    if '0' <= c && c <= '9' {
        Some(((c as u32) - ('0' as u32)) as u8)
    } else if 'a' <= c && c <= 'f' {
        Some(((c as u32) - ('a' as u32) + 10) as u8)
    } else if 'A' <= c && c <= 'F' {
        Some(((c as u32) - ('A' as u32) + 10) as u8)
    } else {
        None
    }
}

/// What `u8::from_str_radix` gives for the two-character text `h l` in
/// base 16: one optional `+` sign, then hexadecimal digits.
pub open spec fn hex_pair(h: char, l: char) -> Option<u8> {
    if h == '+' {
        match hex_value(l) {
            Some(v) => Some(v as u8),
            None => None,
        }
    } else {
        match (hex_value(h), hex_value(l)) {
            (Some(a), Some(b)) => Some((a * 16 + b) as u8),
            _ => None,
        }
    }
}

pub(crate) fn hex_pair_exec(h: char, l: char) -> (r: Option<u8>)
    ensures
        r == hex_pair(h, l),
{
    if h == '+' {
        hex_digit(l)
    } else {
        match (hex_digit(h), hex_digit(l)) {
            (Some(a), Some(b)) => Some(a * 16 + b),
            _ => None,
        }
    }
}

/// URL-decoding of a query component's bytes: `%hh` becomes the byte `hh`
/// as a character (a missing digit counts as `0`; an undecodable pair is
/// kept as written), `+` becomes a space, any other byte becomes the
/// character of the same number.
pub open spec fn url_decode_bytes(b: Seq<u8>) -> Seq<char>
    decreases b.len(),
{
    if b.len() == 0 {
        Seq::empty()
    } else if b[0] == 37u8 {
        let h: u8 = if b.len() > 1 {
            b[1]
        } else {
            48u8
        };
        let l: u8 = if b.len() > 2 {
            b[2]
        } else {
            48u8
        };
        let rest = if b.len() > 3 {
            b.subrange(3, b.len() as int)
        } else {
            Seq::<u8>::empty()
        };
        match hex_pair(h as char, l as char) {
            Some(v) => seq![v as char] + url_decode_bytes(rest),
            None => seq!['%', h as char, l as char] + url_decode_bytes(rest),
        }
    } else if b[0] == 43u8 {
        seq![' '] + url_decode_bytes(b.drop_first())
    } else {
        seq![b[0] as char] + url_decode_bytes(b.drop_first())
    }
}

/// URL-decodes one query component.
pub fn url_decode_component(s: &str) -> (r: String)
    ensures
        r@ == url_decode_bytes(vstd::utf8::encode_utf8(s@)),
{
    let b = s.as_bytes();
    let mut out: Vec<char> = Vec::new();
    let mut i: usize = 0;
    assert(b@.subrange(0, b@.len() as int) =~= b@);
    assert(out@ + url_decode_bytes(b@) =~= url_decode_bytes(b@));
    while i < b.len()
        invariant
            0 <= i <= b@.len(),
            out@ + url_decode_bytes(b@.subrange(i as int, b@.len() as int)) == url_decode_bytes(b@),
        decreases b@.len() - i,
    {
        let ghost rest = b@.subrange(i as int, b@.len() as int);
        assert(rest[0] == b@[i as int]);
        let c = b[i];
        if c == 37u8 {
            let h: u8 = if i + 1 < b.len() {
                b[i + 1]
            } else {
                48u8
            };
            let l: u8 = if b.len() - i > 2 {
                b[i + 2]
            } else {
                48u8
            };
            assert(rest.len() > 1 ==> rest[1] == b@[i + 1]);
            assert(rest.len() > 2 ==> rest[2] == b@[i + 2]);
            let next = if b.len() - i > 3 {
                i + 3
            } else {
                b.len()
            };
            proof {
                if rest.len() > 3 {
                    assert(rest.subrange(3, rest.len() as int) =~= b@.subrange(
                        i + 3,
                        b@.len() as int,
                    ));
                } else {
                    assert(b@.subrange(next as int, b@.len() as int) =~= Seq::<u8>::empty());
                }
            }
            match hex_pair_exec(h as char, l as char) {
                Some(v) => {
                    out.push(v as char);
                },
                None => {
                    out.push('%');
                    out.push(h as char);
                    out.push(l as char);
                },
            }
            i = next;
        } else {
            assert(rest.drop_first() =~= b@.subrange(i + 1, b@.len() as int));
            if c == 43u8 {
                out.push(' ');
            } else {
                out.push(c as char);
            }
            i = i + 1;
        }
    }
    assert(b@.subrange(i as int, b@.len() as int) =~= Seq::<u8>::empty());
    string_from(out.as_slice())
}

/// The text before the first `=` of a query pair and, where there is one,
/// the text after it (`splitn(2, '=')`).
pub open spec fn key_part(pair: Seq<char>) -> Seq<char> {
    split_spec(pair, '=')[0]
}

/// The value part of a query pair: everything after its first `=`, or
/// nothing where it has none.
pub open spec fn value_part(pair: Seq<char>) -> Seq<char> {
    let ps = split_spec(pair, '=');
    if ps.len() > 1 {
        pair.subrange(ps[0].len() as int + 1, pair.len() as int)
    } else {
        Seq::<char>::empty()
    }
}

/// The query map of the first `n` `&`-separated pairs: each pair with a
/// non-empty key inserts the decoded key and value.
pub open spec fn query_pairs_spec(pairs: Seq<Seq<char>>) -> Map<Seq<char>, Seq<char>>
    decreases pairs.len(),
{
    if pairs.len() == 0 {
        Map::empty()
    } else {
        let m = query_pairs_spec(pairs.drop_last());
        let p = pairs.last();
        if key_part(p).len() == 0 {
            m
        } else {
            m.insert(
                url_decode_bytes(vstd::utf8::encode_utf8(key_part(p))),
                url_decode_bytes(vstd::utf8::encode_utf8(value_part(p))),
            )
        }
    }
}

/// The map that a query string gives.
pub open spec fn query_spec(query: Seq<char>) -> Map<Seq<char>, Seq<char>> {
    if query.len() == 0 {
        Map::empty()
    } else {
        query_pairs_spec(split_spec(query, '&'))
    }
}

proof fn lemma_split_first_len(s: Seq<char>, c: char)
    ensures
        split_spec(s, c).len() >= 1,
        split_spec(s, c)[0].len() <= s.len(),
        split_spec(s, c)[0] == s.subrange(0, split_spec(s, c)[0].len() as int),
        split_spec(s, c).len() > 1 ==> split_spec(s, c)[0].len() < s.len() && s[split_spec(
            s,
            c,
        )[0].len() as int] == c,
        split_spec(s, c).len() == 1 ==> split_spec(s, c)[0] == s,
        split_spec(s, c).len() == 1 ==> !s.contains(c),
        split_spec(s, c).len() > 1 ==> !split_spec(s, c)[0].contains(c),
    decreases s.len(),
{
    if s.len() > 0 {
        lemma_split_first_len(s.drop_last(), c);
        let init = split_spec(s.drop_last(), c);
        if init.len() == 1 {
            assert(init[0] == s.drop_last());
            if s.last() == c {
                assert(s.subrange(0, init[0].len() as int) =~= s.drop_last());
            } else {
                assert(split_spec(s, c)[0] =~= s);
                assert forall|k: int| 0 <= k < s.len() implies s[k] != c by {
                    if k < s.len() - 1 {
                        assert(s.drop_last()[k] == s[k]);
                        assert(!s.drop_last().contains(c));
                    }
                }
            }
        } else {
            assert(s.subrange(0, init[0].len() as int) =~= s.drop_last().subrange(
                0,
                init[0].len() as int,
            ));
            assert(s.drop_last()[init[0].len() as int] == s[init[0].len() as int]);
        }
    } else {
        assert(split_spec(s, c)[0] =~= s);
    }
}

/// Splits a query pair at its first `=` into its key and value.
fn split_pair(pair: &[char]) -> (r: (Vec<char>, Vec<char>))
    ensures
        r.0@ == key_part(pair@),
        r.1@ == value_part(pair@),
{
    proof {
        lemma_split_first_len(pair@, '=');
    }
    let n = pair.len();
    match find_char(pair, '=') {
        Some(i) => {
            let ghost k = split_spec(pair@, '=')[0];
            proof {
                if split_spec(pair@, '=').len() == 1 {
                    assert(pair@[i as int] == '=');
                } else if k.len() < i {
                    assert(pair@[k.len() as int] == '=');
                } else if k.len() > i {
                    assert(k[i as int] == pair@[i as int]);
                    assert(k.contains('='));
                }
            }
            (slice_chars(pair, 0, i), slice_chars(pair, i + 1, n))
        },
        None => {
            proof {
                if split_spec(pair@, '=').len() > 1 {
                    let k = split_spec(pair@, '=')[0];
                    assert(pair@[k.len() as int] == '=');
                }
            }
            (slice_chars(pair, 0, pair.len()), Vec::new())
        },
    }
}

/// Parses a query string into its name-value map (`a=1&b=2`).
pub fn parse_query_string(query: &str) -> (r: Vec<(String, String)>)
    ensures
        map_of(r@) == query_spec(query@),
{
    let mut params: Vec<(String, String)> = Vec::new();
    let q = chars_of(query);
    if q.len() == 0 {
        return params;
    }
    let pairs = split_char(q.as_slice(), '&');
    let mut i: usize = 0;
    while i < pairs.len()
        invariant
            0 <= i <= pairs@.len(),
            map_of(params@) == query_pairs_spec(views(pairs@).subrange(0, i as int)),
        decreases pairs@.len() - i,
    {
        let ghost pre = views(pairs@).subrange(0, i as int + 1);
        assert(pre.drop_last() =~= views(pairs@).subrange(0, i as int));
        assert(pre.last() == pairs@[i as int]@);
        let (k, v) = split_pair(pairs[i].as_slice());
        if k.len() > 0 {
            let ks = string_from(k.as_slice());
            let vs = string_from(v.as_slice());
            let kd = url_decode_component(ks.as_str());
            let vd = url_decode_component(vs.as_str());
            kv_insert(&mut params, kd, vd);
        }
        i = i + 1;
    }
    assert(views(pairs@).subrange(0, pairs@.len() as int) =~= views(pairs@));
    params
}

// ==================== Requests ====================

/// A parsed request for a protocol URI.
#[derive(Debug)]
pub struct ProtocolRequest {
    /// The full URI.
    pub uri: String,
    /// The protocol name.
    pub protocol: String,
    /// The host name.
    pub host: String,
    /// The normalized resource path.
    pub path: String,
    /// The query parameters, as (name, value) pairs.
    pub query: Vec<(String, String)>,
    /// The fragment after `#`.
    pub fragment: Option<String>,
    /// The HTTP method.
    pub method: String,
}

/// Why a URI was refused.
#[derive(Debug)]
pub enum ProtocolError {
    /// The URI does not start with `protocol://`.
    WrongProtocol,
}

/// The text before the first `c` in `s`, or all of `s`.
pub open spec fn before_char(s: Seq<char>, c: char) -> Seq<char> {
    split_spec(s, c)[0]
}

/// A text without `c` is one piece.
pub proof fn lemma_split_without(s: Seq<char>, c: char)
    requires
        !s.contains(c),
    ensures
        split_spec(s, c) == seq![s],
    decreases s.len(),
{
    if s.len() > 0 {
        assert(!s.drop_last().contains(c)) by {
            if s.drop_last().contains(c) {
                let i = choose|i: int| 0 <= i < s.drop_last().len() && s.drop_last()[i] == c;
                assert(s[i] == c);
            }
        }
        lemma_split_without(s.drop_last(), c);
        assert(s.last() != c) by {
            assert(s[s.len() - 1] == s.last());
        }
        assert(s.drop_last().push(s.last()) =~= s);
    } else {
        assert(s =~= Seq::<char>::empty());
    }
}

/// The text before the first `c` of `name`, `c`, `rest` is `name` where
/// `name` has no `c`.
pub proof fn lemma_before_char_of(name: Seq<char>, c: char, rest: Seq<char>)
    requires
        !name.contains(c),
    ensures
        before_char(name + seq![c] + rest, c) == name,
        split_spec(name + seq![c] + rest, c).len() >= 2,
    decreases rest.len(),
{
    let s = name + seq![c] + rest;
    if rest.len() == 0 {
        lemma_split_without(name, c);
        assert(s.drop_last() =~= name);
        assert(s.last() == c);
    } else {
        lemma_before_char_of(name, c, rest.drop_last());
        assert(s.drop_last() =~= name + seq![c] + rest.drop_last());
    }
}

/// Whether `c` occurs in `s`.
pub open spec fn has_char(s: Seq<char>, c: char) -> bool {
    s.contains(c)
}

/// The text after the first `c` in `s` (empty where there is none).
pub open spec fn after_char(s: Seq<char>, c: char) -> Seq<char> {
    if s.contains(c) {
        s.subrange(before_char(s, c).len() as int + 1, s.len() as int)
    } else {
        Seq::<char>::empty()
    }
}

/// The part of `rest` (the URI after `protocol://`) that names the host.
pub open spec fn uri_host(rest: Seq<char>) -> Seq<char> {
    before_char(rest, '/')
}

/// The part after the host: from its first `/` on, or `/` where it has none.
pub open spec fn uri_path_and_query(rest: Seq<char>) -> Seq<char> {
    if rest.contains('/') {
        rest.subrange(before_char(rest, '/').len() as int, rest.len() as int)
    } else {
        "/"@
    }
}

/// The part of `pq` before any `#`.
pub open spec fn uri_path_part(pq: Seq<char>) -> Seq<char> {
    before_char(pq, '#')
}

/// The fragment: what follows the first `#`, where there is one.
pub open spec fn uri_fragment(pq: Seq<char>) -> Option<Seq<char>> {
    if pq.contains('#') {
        Some(after_char(pq, '#'))
    } else {
        None
    }
}

/// What `ProtocolRequest::parse` gives for a URI of the expected protocol.
pub open spec fn parse_spec(uri: Seq<char>, protocol: Seq<char>, r: ProtocolRequest) -> bool {
    let rest = uri.subrange(protocol.len() as int + 3, uri.len() as int);
    let pq = uri_path_and_query(rest);
    let pp = uri_path_part(pq);
    &&& r.uri@ == uri
    &&& r.protocol@ == protocol
    &&& r.host@ == uri_host(rest)
    &&& r.path@ == normalize_path_spec(before_char(pp, '?'))
    &&& map_of(r.query@) == query_spec(after_char(pp, '?'))
    &&& match r.fragment {
        Some(f) => uri_fragment(pq) == Some(f@),
        None => uri_fragment(pq) is None,
    }
    &&& r.method@ == "GET"@
}

/// Splits `s` at its first `c`: the text before it, and the text after it
/// where `c` occurs.
pub(crate) fn split_once(s: &[char], c: char) -> (r: (Vec<char>, Option<Vec<char>>))
    ensures
        r.0@ == before_char(s@, c),
        match r.1 {
            Some(a) => s@.contains(c) && a@ == after_char(s@, c),
            None => !s@.contains(c),
        },
{
    proof {
        lemma_split_first_len(s@, c);
    }
    let n = s.len();
    match find_char(s, c) {
        Some(i) => {
            let ghost k = split_spec(s@, c)[0];
            proof {
                if split_spec(s@, c).len() == 1 {
                    assert(s@.contains(c));
                } else if k.len() < i {
                    assert(s@[k.len() as int] == c);
                } else if k.len() > i {
                    assert(k[i as int] == s@[i as int]);
                    assert(k.contains(c));
                }
            }
            (slice_chars(s, 0, i), Some(slice_chars(s, i + 1, n)))
        },
        None => {
            proof {
                if split_spec(s@, c).len() > 1 {
                    let k = split_spec(s@, c)[0];
                    assert(s@[k.len() as int] == c);
                }
            }
            (slice_chars(s, 0, s.len()), None)
        },
    }
}

impl ProtocolRequest {
    /// Parses `uri`, which must start with `protocol://`.
    pub fn parse(uri: &str, protocol: &str) -> (r: Result<ProtocolRequest, ProtocolError>)
        ensures
            match r {
                Ok(req) => has_prefix(uri@, protocol@ + "://"@) && parse_spec(uri@, protocol@, req),
                Err(_) => !has_prefix(uri@, protocol@ + "://"@),
            },
    {
        proof {
            reveal_strlit("://");
            reveal_strlit("/");
        }
        let u = chars_of(uri);
        let mut prefix = chars_of(protocol);
        push_str(&mut prefix, "://");
        if !starts_with(u.as_slice(), prefix.as_slice()) {
            return Err(ProtocolError::WrongProtocol);
        }
        let rest = slice_chars(u.as_slice(), prefix.len(), u.len());
        let ghost rest_s = uri@.subrange(protocol@.len() as int + 3, uri@.len() as int);
        assert(rest@ == rest_s);
        proof {
            lemma_split_first_len(rest@, '/');
        }
        let (host, path_and_query) = match find_char(rest.as_slice(), '/') {
            Some(slash) => {
                let ghost k = split_spec(rest@, '/')[0];
                proof {
                    if split_spec(rest@, '/').len() == 1 {
                        assert(rest@.contains('/'));
                    } else if k.len() < slash {
                        assert(rest@[k.len() as int] == '/');
                    } else if k.len() > slash {
                        assert(k[slash as int] == rest@[slash as int]);
                        assert(k.contains('/'));
                    }
                }
                (slice_chars(rest.as_slice(), 0, slash), slice_chars(rest.as_slice(), slash, rest.len()))
            },
            None => {
                proof {
                    if split_spec(rest@, '/').len() > 1 {
                        let k = split_spec(rest@, '/')[0];
                        assert(rest@[k.len() as int] == '/');
                    }
                }
                (slice_chars(rest.as_slice(), 0, rest.len()), chars_of("/"))
            },
        };
        let (path_part, fragment) = split_once(path_and_query.as_slice(), '#');
        let (path, query_string) = split_once(path_part.as_slice(), '?');
        let query_chars = match query_string {
            Some(q) => q,
            None => Vec::new(),
        };
        let query_text = string_from(query_chars.as_slice());
        let query = parse_query_string(query_text.as_str());
        let path_text = string_from(path.as_slice());
        Ok(ProtocolRequest {
            uri: owned(uri),
            protocol: owned(protocol),
            host: string_from(host.as_slice()),
            path: normalize_path(path_text.as_str()),
            query,
            fragment: match fragment {
                Some(f) => Some(string_from(f.as_slice())),
                None => None,
            },
            method: owned("GET"),
        })
    }

    /// The resource to serve: `entry` for the root, else the path without
    /// leading slashes.
    pub fn resource_path(&self, entry: &str) -> (r: String)
        ensures
            r@ == (if self.path@.len() == 0 || self.path@ == "/"@ {
                entry@
            } else {
                trim_leading_slashes(self.path@)
            }),
    {
        let p = chars_of(self.path.as_str());
        if p.len() == 0 || eq_str(p.as_slice(), "/") {
            owned(entry)
        } else {
            let t = strip_leading_slashes(p.as_slice());
            string_from(t.as_slice())
        }
    }

    /// The value of the query parameter `name`.
    pub fn query_value(&self, name: &str) -> (r: Option<&String>)
        ensures
            match r {
                Some(v) => map_of(self.query@).contains_key(name@) && map_of(self.query@)[name@]
                    == v@,
                None => !map_of(self.query@).contains_key(name@),
            },
    {
        kv_get(&self.query, name)
    }
}

/// The number of leading `/` of `s`.
pub open spec fn leading_slashes(s: Seq<char>) -> nat
    decreases s.len(),
{
    if s.len() > 0 && s[0] == '/' {
        1 + leading_slashes(s.drop_first())
    } else {
        0
    }
}

proof fn lemma_leading_slashes_bound(s: Seq<char>)
    ensures
        leading_slashes(s) <= s.len(),
    decreases s.len(),
{
    if s.len() > 0 && s[0] == '/' {
        lemma_leading_slashes_bound(s.drop_first());
    }
}

/// `s` without its leading `/` (`trim_start_matches('/')`).
pub open spec fn trim_leading_slashes(s: Seq<char>) -> Seq<char> {
    s.subrange(leading_slashes(s) as int, s.len() as int)
}

/// Drops the leading `/` of `s`.
pub fn strip_leading_slashes(s: &[char]) -> (r: Vec<char>)
    ensures
        r@ == trim_leading_slashes(s@),
{
    let mut i: usize = 0;
    assert(s@.subrange(0, s@.len() as int) =~= s@);
    while i < s.len() && s[i] == '/'
        invariant
            0 <= i <= s@.len(),
            leading_slashes(s@) == i + leading_slashes(s@.subrange(i as int, s@.len() as int)),
        decreases s@.len() - i,
    {
        let ghost rest = s@.subrange(i as int, s@.len() as int);
        assert(rest.drop_first() =~= s@.subrange(i + 1, s@.len() as int));
        i = i + 1;
    }
    proof {
        let rest = s@.subrange(i as int, s@.len() as int);
        if i < s@.len() {
            assert(rest[0] == s@[i as int]);
        }
        assert(leading_slashes(rest) == 0);
    }
    slice_chars(s, i, s.len())
}

// ==================== Responses ====================

/// A response to a protocol request.
#[derive(Debug)]
pub struct ProtocolResponse {
    /// The HTTP status code.
    pub status: u16,
    /// The response headers, as (name, value) pairs; a later pair for a
    /// name replaces an earlier one.
    pub headers: Vec<(String, String)>,
    /// The response body.
    pub body: Vec<u8>,
}

/// The 404 page's text before the escaped path.
pub const NOT_FOUND_HEAD: &'static str = "<!DOCTYPE html><html><head><meta charset=\"utf-8\"><title>404</title></head>
<body style=\"font-family:sans-serif;text-align:center;padding:3rem\">
<h1>404</h1><p>Resource not found: ";

/// The 500 page's text before the escaped message.
pub const INTERNAL_ERROR_HEAD: &'static str = "<!DOCTYPE html><html><head><meta charset=\"utf-8\"><title>500</title></head>
<body style=\"font-family:sans-serif;text-align:center;padding:3rem;color:#c00\">
<h1>500</h1><p>Internal error: ";

/// The text after the escaped part of both error pages.
pub const ERROR_PAGE_TAIL: &'static str = "</p></body></html>";

/// The UTF-8 bytes of `v`.
pub(crate) fn utf8_bytes(v: &[char]) -> (r: Vec<u8>)
    ensures
        r@ == vstd::utf8::encode_utf8(v@),
{
    let s = string_from(v);
    s.as_str().as_bytes_vec()
}

proof fn lemma_header_names_distinct()
    ensures
        "Content-Type"@ != "Cache-Control"@,
        "Content-Type"@ != "Access-Control-Allow-Origin"@,
        "Cache-Control"@ != "Access-Control-Allow-Origin"@,
{
    reveal_strlit("Content-Type");
    reveal_strlit("Cache-Control");
    reveal_strlit("Access-Control-Allow-Origin");
    assert("Content-Type"@.len() != "Cache-Control"@.len());
    assert("Content-Type"@.len() != "Access-Control-Allow-Origin"@.len());
    assert("Cache-Control"@.len() != "Access-Control-Allow-Origin"@.len());
}

fn header(name: &str, value: &str) -> (r: (String, String))
    ensures
        r.0@ == name@,
        r.1@ == value@,
{
    (owned(name), owned(value))
}

impl ProtocolResponse {
    /// A 200 response with `body`, its content type, open CORS and no caching.
    pub fn ok(body: Vec<u8>, content_type: &str) -> (r: ProtocolResponse)
        ensures
            r.status == 200,
            r.body@ == body@,
            map_of(r.headers@) == Map::<Seq<char>, Seq<char>>::empty().insert(
                "Content-Type"@,
                content_type@,
            ).insert("Access-Control-Allow-Origin"@, "*"@).insert("Cache-Control"@, "no-cache"@),
    {
        let mut headers: Vec<(String, String)> = Vec::new();
        let (a, b) = header("Content-Type", content_type);
        kv_insert(&mut headers, a, b);
        let (a, b) = header("Access-Control-Allow-Origin", "*");
        kv_insert(&mut headers, a, b);
        let (a, b) = header("Cache-Control", "no-cache");
        kv_insert(&mut headers, a, b);
        ProtocolResponse { status: 200, headers, body }
    }

    /// A 404 page naming `path`, HTML-escaped.
    pub fn not_found(path: &str) -> (r: ProtocolResponse)
        ensures
            r.status == 404,
            r.body@ == vstd::utf8::encode_utf8(
                NOT_FOUND_HEAD@ + html_escape_spec(path@) + ERROR_PAGE_TAIL@,
            ),
            map_of(r.headers@) == Map::<Seq<char>, Seq<char>>::empty().insert(
                "Content-Type"@,
                "text/html; charset=utf-8"@,
            ),
    {
        let mut page = chars_of(NOT_FOUND_HEAD);
        let esc = html_escape(path);
        push_str(&mut page, esc.as_str());
        push_str(&mut page, ERROR_PAGE_TAIL);
        let mut headers: Vec<(String, String)> = Vec::new();
        let (a, b) = header("Content-Type", "text/html; charset=utf-8");
        kv_insert(&mut headers, a, b);
        ProtocolResponse { status: 404, headers, body: utf8_bytes(page.as_slice()) }
    }

    /// A 500 page naming `message`, HTML-escaped.
    pub fn internal_error(message: &str) -> (r: ProtocolResponse)
        ensures
            r.status == 500,
            r.body@ == vstd::utf8::encode_utf8(
                INTERNAL_ERROR_HEAD@ + html_escape_spec(message@) + ERROR_PAGE_TAIL@,
            ),
            map_of(r.headers@) == Map::<Seq<char>, Seq<char>>::empty().insert(
                "Content-Type"@,
                "text/html; charset=utf-8"@,
            ),
    {
        let mut page = chars_of(INTERNAL_ERROR_HEAD);
        let esc = html_escape(message);
        push_str(&mut page, esc.as_str());
        push_str(&mut page, ERROR_PAGE_TAIL);
        let mut headers: Vec<(String, String)> = Vec::new();
        let (a, b) = header("Content-Type", "text/html; charset=utf-8");
        kv_insert(&mut headers, a, b);
        ProtocolResponse { status: 500, headers, body: utf8_bytes(page.as_slice()) }
    }

    /// The response with its `Cache-Control` header set to `directive`.
    pub fn with_cache_control(self, directive: &str) -> (r: ProtocolResponse)
        ensures
            r.status == self.status,
            r.body == self.body,
            map_of(r.headers@) == map_of(self.headers@).insert("Cache-Control"@, directive@),
    {
        let mut s = self;
        let (a, b) = header("Cache-Control", directive);
        kv_insert(&mut s.headers, a, b);
        s
    }

    /// The response with the header `name` set to `value`.
    pub fn with_header(self, name: &str, value: &str) -> (r: ProtocolResponse)
        ensures
            r.status == self.status,
            r.body == self.body,
            map_of(r.headers@) == map_of(self.headers@).insert(name@, value@),
    {
        let mut s = self;
        let (a, b) = header(name, value);
        kv_insert(&mut s.headers, a, b);
        s
    }

    /// The value of the header `name`.
    pub fn header_value(&self, name: &str) -> (r: Option<&String>)
        ensures
            match r {
                Some(v) => map_of(self.headers@).contains_key(name@) && map_of(self.headers@)[name@]
                    == v@,
                None => !map_of(self.headers@).contains_key(name@),
            },
    {
        kv_get(&self.headers, name)
    }
}

// ==================== Handler ====================

/// Cache-control policy of served resources.
#[derive(Debug)]
pub enum CachePolicy {
    /// No caching (development).
    NoCache,
    /// Short-lived caching.
    ShortLived,
    /// Long-lived caching of immutable resources.
    Immutable,
    /// A custom directive.
    Custom(String),
}

impl CachePolicy {
    /// The `Cache-Control` value of the policy.
    pub fn to_header_value(&self) -> (r: &'static str)
        ensures
            r@ == (match self {
                CachePolicy::NoCache => "no-cache, no-store, must-revalidate"@,
                CachePolicy::ShortLived => "public, max-age=300"@,
                CachePolicy::Immutable => "public, max-age=31536000, immutable"@,
                CachePolicy::Custom(_) => "no-cache"@,
            }),
    {
        match self {
            CachePolicy::NoCache => "no-cache, no-store, must-revalidate",
            CachePolicy::ShortLived => "public, max-age=300",
            CachePolicy::Immutable => "public, max-age=31536000, immutable",
            CachePolicy::Custom(_) => "no-cache",
        }
    }
}

/// Routes protocol requests to files of a resource pack.
#[derive(Debug)]
pub struct ProtocolHandler {
    /// Protocol name.
    pub protocol: String,
    /// Entry file name.
    pub entry: String,
    /// MIME types by extension, overriding the built-in table.
    pub mime_overrides: Vec<(String, String)>,
    /// Cache-control policy.
    pub cache_policy: CachePolicy,
}

impl ProtocolHandler {
    /// A handler for `protocol` serving `entry` at the root, without
    /// overrides and without caching.
    pub fn new(protocol: &str, entry: &str) -> (r: ProtocolHandler)
        ensures
            r.protocol@ == protocol@,
            r.entry@ == entry@,
            r.mime_overrides@.len() == 0,
            r.cache_policy is NoCache,
    {
        ProtocolHandler {
            protocol: owned(protocol),
            entry: owned(entry),
            mime_overrides: Vec::new(),
            cache_policy: CachePolicy::NoCache,
        }
    }

    /// The handler with `policy` as its cache policy.
    pub fn with_cache_policy(self, policy: CachePolicy) -> (r: ProtocolHandler)
        ensures
            r.protocol == self.protocol,
            r.entry == self.entry,
            r.mime_overrides == self.mime_overrides,
            r.cache_policy == policy,
    {
        let mut s = self;
        s.cache_policy = policy;
        s
    }

    /// The handler serving files with `extension` as `mime`.
    pub fn with_mime_override(self, extension: &str, mime: &str) -> (r: ProtocolHandler)
        ensures
            r.protocol == self.protocol,
            r.entry == self.entry,
            r.cache_policy == self.cache_policy,
            map_of(r.mime_overrides@) == map_of(self.mime_overrides@).insert(extension@, mime@),
    {
        let mut s = self;
        kv_insert(&mut s.mime_overrides, owned(extension), owned(mime));
        s
    }

    /// The MIME type of `path`: an override for its extension, else the
    /// built-in table.
    pub fn get_mime_type(&self, path: &str) -> (r: String)
        ensures
            r@ == (match path_extension_spec(path@) {
                Some(e) => if map_of(self.mime_overrides@).contains_key(e) {
                    map_of(self.mime_overrides@)[e]
                } else {
                    guess_content_type_spec(path@)
                },
                None => guess_content_type_spec(path@),
            }),
    {
        match path_extension(path) {
            Some(e) => match kv_get(&self.mime_overrides, e.as_str()) {
                Some(m) => m.clone(),
                None => guess_content_type(path),
            },
            None => guess_content_type(path),
        }
    }

    /// The protocol name.
    pub fn protocol_name(&self) -> (r: &str)
        ensures
            r@ == self.protocol@,
    {
        self.protocol.as_str()
    }

    /// The full URL of `path`: `protocol://localhost/path`, without the
    /// path's leading slashes.
    pub fn build_url(&self, path: &str) -> (r: String)
        ensures
            r@ == self.protocol@ + "://"@ + DEFAULT_HOST@ + "/"@ + trim_leading_slashes(path@),
    {
        let mut v = chars_of(self.protocol.as_str());
        push_str(&mut v, "://");
        push_str(&mut v, DEFAULT_HOST);
        push_str(&mut v, "/");
        let p = chars_of(path);
        let t = strip_leading_slashes(p.as_slice());
        push_all(&mut v, t.as_slice());
        string_from(v.as_slice())
    }
}

/// The resource that a well-formed request URI names, with `entry` at the root.
pub open spec fn requested_resource(uri: Seq<char>, protocol: Seq<char>, entry: Seq<char>) -> Seq<char> {
    let rest = uri.subrange(protocol.len() as int + 3, uri.len() as int);
    let path = normalize_path_spec(before_char(uri_path_part(uri_path_and_query(rest)), '?'));
    if path.len() == 0 || path == "/"@ {
        entry
    } else {
        trim_leading_slashes(path)
    }
}

/// The text of the error for a URI of another protocol.
pub open spec fn wrong_protocol_message(uri: Seq<char>, protocol: Seq<char>) -> Seq<char> {
    "invalid request: URI '"@ + uri + "' does not start with '"@ + protocol + "://'"@
}

/// `s` without trailing `/` (`trim_end_matches('/')`).
pub open spec fn trim_trailing_slashes(s: Seq<char>) -> Seq<char>
    decreases s.len(),
{
    if s.len() > 0 && s.last() == '/' {
        trim_trailing_slashes(s.drop_last())
    } else {
        s
    }
}

fn strip_trailing_slashes(s: &[char]) -> (r: Vec<char>)
    ensures
        r@ == trim_trailing_slashes(s@),
{
    let mut n = s.len();
    assert(s@.subrange(0, n as int) =~= s@);
    while n > 0 && s[n - 1] == '/'
        invariant
            0 <= n <= s@.len(),
            trim_trailing_slashes(s@) == trim_trailing_slashes(s@.subrange(0, n as int)),
        decreases n,
    {
        let ghost pre = s@.subrange(0, n as int);
        assert(pre.drop_last() =~= s@.subrange(0, n - 1));
        n = n - 1;
    }
    proof {
        let pre = s@.subrange(0, n as int);
        if n > 0 {
            assert(pre.last() == s@[n - 1]);
        }
    }
    slice_chars(s, 0, n)
}

impl ProtocolHandler {
    /// Serves a request: the resource the URI names, else that directory's
    /// `index.html`, else a 404 page; a URI of another protocol gets a 500 page.
    pub fn handle_request(&self, uri: &str, resource_pack: &crate::pack::ResourcePack) -> (r: ProtocolResponse)
        ensures
            !has_prefix(uri@, self.protocol@ + "://"@) ==> r.status == 500 && r.body@
                == vstd::utf8::encode_utf8(
                INTERNAL_ERROR_HEAD@ + html_escape_spec(wrong_protocol_message(uri@, self.protocol@))
                    + ERROR_PAGE_TAIL@,
            ),
            has_prefix(uri@, self.protocol@ + "://"@) ==> ({
                let res = requested_resource(uri@, self.protocol@, self.entry@);
                let files = resource_pack.files_map();
                let index = trim_trailing_slashes(res) + "/index.html"@;
                if files.contains_key(crate::pack::normalize_resource_path_spec(res)) {
                    &&& r.status == 200
                    &&& r.body@ == files[crate::pack::normalize_resource_path_spec(res)]
                    &&& map_of(r.headers@)["Content-Type"@] == (match path_extension_spec(res) {
                        Some(e) => if map_of(self.mime_overrides@).contains_key(e) {
                            map_of(self.mime_overrides@)[e]
                        } else {
                            guess_content_type_spec(res)
                        },
                        None => guess_content_type_spec(res),
                    })
                    &&& map_of(r.headers@)["Cache-Control"@] == (match self.cache_policy {
                        CachePolicy::NoCache => "no-cache, no-store, must-revalidate"@,
                        CachePolicy::ShortLived => "public, max-age=300"@,
                        CachePolicy::Immutable => "public, max-age=31536000, immutable"@,
                        CachePolicy::Custom(_) => "no-cache"@,
                    })
                } else if files.contains_key(crate::pack::normalize_resource_path_spec(index)) {
                    &&& r.status == 200
                    &&& r.body@ == files[crate::pack::normalize_resource_path_spec(index)]
                    &&& map_of(r.headers@)["Content-Type"@] == "text/html; charset=utf-8"@
                } else {
                    &&& r.status == 404
                    &&& r.body@ == vstd::utf8::encode_utf8(
                        NOT_FOUND_HEAD@ + html_escape_spec(res) + ERROR_PAGE_TAIL@,
                    )
                }
            }),
    {
        let request = match ProtocolRequest::parse(uri, self.protocol.as_str()) {
            Ok(req) => req,
            Err(_) => {
                let mut msg = chars_of("invalid request: URI '");
                push_str(&mut msg, uri);
                push_str(&mut msg, "' does not start with '");
                push_str(&mut msg, self.protocol.as_str());
                push_str(&mut msg, "://'");
                let m = string_from(msg.as_slice());
                return ProtocolResponse::internal_error(m.as_str());
            },
        };
        let resource_path = request.resource_path(self.entry.as_str());
        match resource_pack.get(resource_path.as_str()) {
            Some(content) => {
                let mime = self.get_mime_type(resource_path.as_str());
                let policy = self.cache_policy.to_header_value();
                let resp = ProtocolResponse::ok(content.clone(), mime.as_str());
                proof {
                    lemma_header_names_distinct();
                    assert(map_of(resp.headers@)["Content-Type"@] == mime@);
                }
                resp.with_cache_control(policy)
            },
            None => {
                let rp = chars_of(resource_path.as_str());
                let mut index = strip_trailing_slashes(rp.as_slice());
                push_str(&mut index, "/index.html");
                let index_path = string_from(index.as_slice());
                match resource_pack.get(index_path.as_str()) {
                    Some(content) => {
                        proof {
                            lemma_header_names_distinct();
                        }
                        ProtocolResponse::ok(content.clone(), "text/html; charset=utf-8")
                    },
                    None => ProtocolResponse::not_found(resource_path.as_str()),
                }
            },
        }
    }
}

/// Prepares a handler's registration with the web view; the registration
/// itself is made by the web view, so nothing is done here.
pub fn prepare_protocol_registration(_protocol: &str, _handler: &ProtocolHandler) {
}

} // verus!
