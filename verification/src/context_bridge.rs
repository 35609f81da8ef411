//! Context isolation settings, the origin check on bridge messages, and the
//! script that restricts IPC to whitelisted APIs. Handlers exposed to pages
//! are kept and called by the application.

use vstd::prelude::*;
use crate::content_tracing::{json_quote, json_quote_spec};
use crate::protocol::{before_char, split_once};
use crate::server::{first_index, lemma_first_index_pub};
use crate::text::{chars_of, contains_seq, find, occurs_at, owned, push_str, seq_eq, slice_chars, string_from};

verus! {

/// Bridge settings.
#[derive(Debug)]
pub struct ContextBridgeConfig {
    /// Context isolation.
    pub context_isolation: bool,
    /// APIs that may be exposed.
    pub allowed_apis: Vec<String>,
    /// Refuse APIs outside `allowed_apis`.
    pub strict_mode: bool,
}

impl Default for ContextBridgeConfig {
    fn default() -> (r: ContextBridgeConfig)
        ensures
            r.context_isolation,
            crate::config::string_views(r.allowed_apis@) == seq!["nefu"@, "lj"@],
            !r.strict_mode,
    {
        let mut apis: Vec<String> = Vec::new();
        apis.push(owned("nefu"));
        apis.push(owned("lj"));
        assert(crate::config::string_views(apis@) =~= seq!["nefu"@, "lj"@]);
        ContextBridgeConfig { context_isolation: true, allowed_apis: apis, strict_mode: false }
    }
}

/// The text after the first `://` up to the next one (or the end).
pub open spec fn after_scheme(url: Seq<char>) -> Seq<char> {
    let rest = url.skip(first_index(url, "://"@) + 3);
    if contains_seq(rest, "://"@) {
        rest.take(first_index(rest, "://"@))
    } else {
        rest
    }
}

/// The domain of a URL: after its scheme, before any `/` and any port;
/// none for a text without `://`.
pub open spec fn domain_spec(url: Seq<char>) -> Option<Seq<char>> {
    if contains_seq(url, "://"@) {
        Some(before_char(before_char(after_scheme(url), '/'), ':'))
    } else {
        None
    }
}

fn up_to_pattern(s: &[char], p: &[char]) -> (r: Option<(usize, Vec<char>)>)
    ensures
        match r {
            Some((i, t)) => contains_seq(s@, p@) && i == first_index(s@, p@) && t@ == s@.take(i as int)
                && occurs_at(s@, p@, i as int),
            None => !contains_seq(s@, p@),
        },
{
    match find(s, p) {
        Some(i) => {
            proof {
                lemma_first_index_pub(s@, p@, i as int);
                assert(contains_seq(s@, p@));
            }
            Some((i, slice_chars(s, 0, i)))
        },
        None => None,
    }
}

/// The domain of a URL.
pub fn extract_domain(url: &str) -> (r: Option<String>)
    ensures
        match domain_spec(url@) {
            Some(d) => r is Some && r->0@ == d,
            None => r is None,
        },
{
    proof {
        reveal_strlit("://");
    }
    let u = chars_of(url);
    let sep = chars_of("://");
    let i = match up_to_pattern(u.as_slice(), sep.as_slice()) {
        Some((i, _)) => i,
        None => return None,
    };
    let n = u.len();
    let rest = slice_chars(u.as_slice(), i + 3, n);
    assert(rest@ =~= u@.skip(i + 3));
    let piece = match up_to_pattern(rest.as_slice(), sep.as_slice()) {
        Some((_, t)) => t,
        None => rest,
    };
    let (host, _) = split_once(piece.as_slice(), '/');
    let (domain, _) = split_once(host.as_slice(), ':');
    Some(string_from(domain.as_slice()))
}

/// A message origin is accepted where no domains are listed, or where its
/// URL has a listed domain.
pub open spec fn origin_allowed(url: Seq<char>, allowed: Seq<Seq<char>>) -> bool {
    allowed.len() == 0 || (domain_spec(url) is Some && allowed.contains(domain_spec(url)->0))
}

/// Whether a message from `request_url` is accepted.
pub fn validate_message_origin(request_url: &str, allowed_domains: &[String]) -> (r: bool)
    ensures
        r == origin_allowed(request_url@, allowed_domains@.map_values(|s: String| s@)),
{
    let ghost names = allowed_domains@.map_values(|s: String| s@);
    if allowed_domains.len() == 0 {
        return true;
    }
    let d = match extract_domain(request_url) {
        Some(d) => d,
        None => return false,
    };
    let dv = chars_of(d.as_str());
    let mut i: usize = 0;
    while i < allowed_domains.len()
        invariant
            0 <= i <= allowed_domains@.len(),
            names == allowed_domains@.map_values(|s: String| s@),
            domain_spec(request_url@) == Some(dv@),
            forall|j: int| 0 <= j < i ==> (#[trigger] names[j]) != dv@,
        decreases allowed_domains@.len() - i,
    {
        let a = chars_of(allowed_domains[i].as_str());
        assert(names[i as int] == allowed_domains@[i as int]@);
        if seq_eq(a.as_slice(), dv.as_slice()) {
            assert(names.contains(dv@));
            return true;
        }
        i = i + 1;
    }
    false
}

/// The JSON array of the names, as `serde_json` writes it.
pub open spec fn json_array_spec(names: Seq<Seq<char>>) -> Seq<char>
    decreases names.len(),
{
    if names.len() == 0 {
        "[]"@
    } else {
        "["@ + json_items(names) + "]"@
    }
}

/// The quoted names separated by commas.
pub open spec fn json_items(names: Seq<Seq<char>>) -> Seq<char>
    decreases names.len(),
{
    if names.len() == 0 {
        Seq::empty()
    } else if names.len() == 1 {
        json_quote_spec(names[0])
    } else {
        json_items(names.drop_last()) + ","@ + json_quote_spec(names.last())
    }
}

/// The JSON array of strings.
pub fn json_string_array(names: &[String]) -> (r: String)
    ensures
        r@ == json_array_spec(names@.map_values(|s: String| s@)),
{
    let ghost all = names@.map_values(|s: String| s@);
    let mut items: Vec<char> = Vec::new();
    let mut i: usize = 0;
    while i < names.len()
        invariant
            0 <= i <= names@.len(),
            all == names@.map_values(|s: String| s@),
            items@ == json_items(all.take(i as int)),
        decreases names@.len() - i,
    {
        let ghost pre = all.take(i as int + 1);
        assert(pre.drop_last() =~= all.take(i as int));
        assert(pre.last() == names@[i as int]@);
        if i > 0 {
            push_str(&mut items, ",");
        }
        let q = json_quote(names[i].as_str());
        push_str(&mut items, q.as_str());
        proof {
            if i == 0 {
                assert(pre.len() == 1);
                assert(items@ =~= json_quote_spec(pre[0]));
            }
        }
        i = i + 1;
    }
    assert(all.take(names@.len() as int) =~= all);
    let mut out = chars_of("[");
    crate::text::push_all(&mut out, items.as_slice());
    push_str(&mut out, "]");
    proof {
        if names@.len() == 0 {
            reveal_strlit("[");
            reveal_strlit("]");
            reveal_strlit("[]");
            assert(out@ =~= "[]"@);
        }
    }
    string_from(out.as_slice())
}

/// The IPC script before the whitelist.
pub const SAFE_IPC_HEAD: &'static str = "(function() {\n    'use strict';\n\n    // Secure IPC communication\n    const ALLOWED_APIS = ";

/// The IPC script after the whitelist.
pub const SAFE_IPC_TAIL: &'static str = ";\n    const originalPostMessage = window.ipc && window.ipc.postMessage;\n\n    window.__nefu_safe_ipc = {\n        /**\n         * Securely send an IPC message\n         * Validates whether the API is on the whitelist\n         */\n        postMessage: function(message) {\n            try {\n                const parsed = JSON.parse(message);\n                if (parsed.type === 'invoke' || parsed.type === 'context_bridge_invoke') {\n                    const method = parsed.channel || parsed.method;\n                    if (ALLOWED_APIS.indexOf(method) !== -1) {\n                        if (originalPostMessage) {\n                            originalPostMessage(message);\n                        }\n                    } else {\n                        console.warn('[Nefu] Security restriction: API \"' + method + '\" is not allowed');\n                    }\n                } else {\n                    if (originalPostMessage) {\n                        originalPostMessage(message);\n                    }\n                }\n            } catch (e) {\n                console.error('[Nefu] Secure IPC error:', e);\n            }\n        }\n    };\n\n    // Replace the original postMessage with the secure version\n    if (window.ipc && window.ipc.postMessage) {\n        window.ipc.postMessage = function(msg) {\n            window.__nefu_safe_ipc.postMessage(msg);\n        };\n    }\n\n    console.log('[Nefu] Secure IPC initialized, whitelist:', ALLOWED_APIS);\n})();";

/// The script that lets only whitelisted APIs through IPC.
pub fn generate_safe_ipc_script(allowed_apis: &[String]) -> (r: String)
    ensures
        r@ == SAFE_IPC_HEAD@ + json_array_spec(allowed_apis@.map_values(|s: String| s@)) + SAFE_IPC_TAIL@,
{
    let mut v = chars_of(SAFE_IPC_HEAD);
    push_str(&mut v, json_string_array(allowed_apis).as_str());
    push_str(&mut v, SAFE_IPC_TAIL);
    string_from(v.as_slice())
}

} // verus!
