use nefu::pack::{assemble_package, build_payload, zip_archive, ResourcePack};
use nefu::protocol::{
    guess_content_type, html_escape, normalize_path, parse_query_string, CachePolicy,
    ProtocolHandler, ProtocolRequest, ProtocolResponse,
};

fn pack_of(entries: Vec<(String, Vec<u8>)>) -> ResourcePack {
    let zip = zip_archive(&entries, false).unwrap();
    let payload = build_payload(zip, true).unwrap();
    let data = assemble_package(b"host", &payload);
    ResourcePack::unpack(&data).unwrap()
}

fn lookup<'a>(pairs: &'a [(String, String)], key: &str) -> Option<&'a String> {
    pairs.iter().rev().find(|(k, _)| k == key).map(|(_, v)| v)
}

#[test]
fn test_parse_protocol_request() {
    let req = ProtocolRequest::parse("nefu://localhost/index.html", "nefu").unwrap();
    assert_eq!(req.protocol, "nefu");
    assert_eq!(req.host, "localhost");
    assert_eq!(req.path, "index.html");
    assert!(req.query.is_empty());
    assert!(req.fragment.is_none());
}

#[test]
fn test_parse_with_query_and_fragment() {
    let req = ProtocolRequest::parse(
        "nefu://localhost/page.html?key=value&foo=bar#section",
        "nefu",
    )
    .unwrap();
    assert_eq!(req.path, "page.html");
    assert_eq!(lookup(&req.query, "key").unwrap(), "value");
    assert_eq!(lookup(&req.query, "foo").unwrap(), "bar");
    assert_eq!(req.fragment.unwrap(), "section");
}

#[test]
fn test_parse_invalid_protocol() {
    let result = ProtocolRequest::parse("http://localhost/index.html", "nefu");
    assert!(result.is_err());
}

#[test]
fn test_resource_path() {
    let req = ProtocolRequest::parse("nefu://localhost/", "nefu").unwrap();
    assert_eq!(req.resource_path("index.html"), "index.html");

    let req2 = ProtocolRequest::parse("nefu://localhost/css/style.css", "nefu").unwrap();
    assert_eq!(req2.resource_path("index.html"), "css/style.css");
}

#[test]
fn test_normalize_path() {
    assert_eq!(normalize_path("/index.html"), "index.html");
    assert_eq!(normalize_path("a/b/../c"), "a/c");
    assert_eq!(normalize_path("./foo/./bar"), "foo/bar");
    assert_eq!(normalize_path(""), "");
}

#[test]
fn test_parse_query_string() {
    let params = parse_query_string("a=1&b=2&c=hello%20world");
    assert_eq!(lookup(&params, "a").unwrap(), "1");
    assert_eq!(lookup(&params, "b").unwrap(), "2");
    assert_eq!(lookup(&params, "c").unwrap(), "hello world");
}

#[test]
fn test_parse_empty_query() {
    let params = parse_query_string("");
    assert!(params.is_empty());
}

#[test]
fn test_guess_content_type() {
    assert_eq!(guess_content_type("index.html"), "text/html; charset=utf-8");
    assert_eq!(guess_content_type("style.css"), "text/css; charset=utf-8");
    assert_eq!(
        guess_content_type("app.js"),
        "application/javascript; charset=utf-8"
    );
    assert_eq!(guess_content_type("logo.png"), "image/png");
    assert_eq!(guess_content_type("data.unknown"), "application/octet-stream");
}

#[test]
fn test_protocol_handler_build_url() {
    let handler = ProtocolHandler::new("nefu", "index.html");
    assert_eq!(
        handler.build_url("css/style.css"),
        "nefu://localhost/css/style.css"
    );
    assert_eq!(
        handler.build_url("/index.html"),
        "nefu://localhost/index.html"
    );
}

#[test]
fn test_protocol_response_ok() {
    let resp = ProtocolResponse::ok(b"hello".to_vec(), "text/plain");
    assert_eq!(resp.status, 200);
    assert_eq!(resp.body, b"hello");
    assert_eq!(resp.header_value("Content-Type").unwrap(), "text/plain");
}

#[test]
fn test_protocol_response_not_found() {
    let resp = ProtocolResponse::not_found("missing.html");
    assert_eq!(resp.status, 404);
    assert!(String::from_utf8_lossy(&resp.body).contains("missing.html"));
}

#[test]
fn test_cache_policy_values() {
    assert_eq!(
        CachePolicy::NoCache.to_header_value(),
        "no-cache, no-store, must-revalidate"
    );
    assert!(CachePolicy::ShortLived.to_header_value().contains("max-age"));
    assert!(CachePolicy::Immutable.to_header_value().contains("immutable"));
}

#[test]
fn test_html_escape() {
    assert_eq!(
        html_escape("<script>alert('xss')</script>"),
        "&lt;script&gt;alert(&#x27;xss&#x27;)&lt;/script&gt;"
    );
}

// ---- further cases ----

#[test]
fn handle_request_serves_files_index_and_404() {
    let pack = pack_of(vec![
        ("index.html".to_string(), b"<p>home</p>".to_vec()),
        ("docs/index.html".to_string(), b"<p>docs</p>".to_vec()),
    ]);
    let handler = ProtocolHandler::new("nefu", "index.html").with_cache_policy(CachePolicy::Immutable);

    let home = handler.handle_request("nefu://localhost/", &pack);
    assert_eq!(home.status, 200);
    assert_eq!(home.body, b"<p>home</p>");
    assert_eq!(home.header_value("Cache-Control").unwrap(), "public, max-age=31536000, immutable");

    let docs = handler.handle_request("nefu://localhost/docs/", &pack);
    assert_eq!(docs.status, 200);
    assert_eq!(docs.body, b"<p>docs</p>");
    assert_eq!(docs.header_value("Content-Type").unwrap(), "text/html; charset=utf-8");

    let missing = handler.handle_request("nefu://localhost/nope.css", &pack);
    assert_eq!(missing.status, 404);

    let wrong = handler.handle_request("http://localhost/index.html", &pack);
    assert_eq!(wrong.status, 500);
}

#[test]
fn mime_override_wins_over_guess() {
    let handler = ProtocolHandler::new("nefu", "index.html").with_mime_override("wasm", "application/x-custom");
    assert_eq!(handler.get_mime_type("a/b.wasm"), "application/x-custom");
    assert_eq!(handler.get_mime_type("a/b.css"), "text/css; charset=utf-8");
}

#[test]
fn with_header_replaces_earlier_value() {
    let resp = ProtocolResponse::ok(Vec::new(), "text/plain").with_header("Content-Type", "text/html");
    assert_eq!(resp.header_value("Content-Type").unwrap(), "text/html");
}

#[test]
fn url_decoding_of_query_keeps_bad_escapes() {
    let params = parse_query_string("a=%zz&b=x+y");
    assert_eq!(lookup(&params, "a").unwrap(), "%zz");
    assert_eq!(lookup(&params, "b").unwrap(), "x y");
}
