use nefu::config::NefuConfig;
use nefu::server::{
    choose_source, compiled_response, compute_websocket_accept, create_404_response,
    create_error_response, guess_mime_for_path, handshake_reply, host_allowed, html_escape_simple,
    inject_hot_reload_script, is_html_file, is_reload_extension, resolve_request_file,
    sanitize_path, url_decode, url_path, websocket_text_frame, HandshakeRejection, ServerError,
    SourceChoice,
};

#[test]
fn test_sanitize_path_normal() {
    assert_eq!(sanitize_path("/index.html").unwrap(), "/index.html");
    assert_eq!(sanitize_path("/css/style.css").unwrap(), "/css/style.css");
}

#[test]
fn test_sanitize_path_traversal() {
    assert!(sanitize_path("/../../../etc/passwd").is_err());
    assert!(sanitize_path("/foo/../bar").is_err());
}

#[test]
fn test_url_decode() {
    assert_eq!(url_decode("hello%20world"), "hello world");
    assert_eq!(url_decode("a+b"), "a b");
    assert_eq!(url_decode("normal"), "normal");
}

#[test]
fn test_is_html_file() {
    assert!(is_html_file("index.html"));
    assert!(is_html_file("page.htm"));
    assert!(!is_html_file("style.css"));
    assert!(!is_html_file("app.js"));
}

#[test]
fn test_inject_hot_reload_script() {
    let html = "<html><head><title>Test</title></head><body>Hello</body></html>";
    let result = inject_hot_reload_script(html, 45678);
    assert!(result.contains("ws://127.0.0.1:45678"));
    assert!(result.contains("hot reload"));
}

#[test]
fn test_inject_no_head_tag() {
    let html = "<body>Hello</body>";
    let result = inject_hot_reload_script(html, 45678);
    assert!(result.contains("ws://127.0.0.1:45678"));
}

#[test]
fn test_guess_mime_for_path() {
    assert_eq!(guess_mime_for_path("test.html"), "text/html; charset=utf-8");
    assert_eq!(guess_mime_for_path("test.css"), "text/css; charset=utf-8");
}

#[test]
fn test_html_escape_simple() {
    assert_eq!(html_escape_simple("<b>bold</b>"), "&lt;b&gt;bold&lt;/b&gt;");
    assert_eq!(html_escape_simple("a & b"), "a &amp; b");
}

#[test]
fn test_create_404_response() {
    let resp = create_404_response("/missing.html");
    assert_eq!(resp.status, 404);
}

#[test]
fn test_compute_websocket_accept_rfc_vector() {
    let accept = compute_websocket_accept("dGhlIHNhbXBsZSBub25jZQ==");
    assert_eq!(accept, "evRRRcnbilln1hhKoXsmWwBZTkY=");
}

#[test]
fn test_compute_websocket_accept_distinct() {
    let a = compute_websocket_accept("key-one");
    let b = compute_websocket_accept("key-two");
    assert_ne!(a, b);
}

// ---- further cases ----

#[test]
fn inject_goes_before_head_close_once() {
    let html = "<html><head></head><body></body></html>";
    let result = inject_hot_reload_script(html, 7000);
    let at_script = result.find("<script>").unwrap();
    let at_close = result.find("</head>").unwrap();
    assert!(at_script < at_close);
    assert_eq!(result.matches("</head>").count(), 1);
    assert!(result.starts_with("<html><head>"));
}

#[test]
fn inject_into_body_when_no_head() {
    let result = inject_hot_reload_script("<body>x</body>", 1);
    let at_script = result.find("<script>").unwrap();
    let at_close = result.find("</body>").unwrap();
    assert!(at_script < at_close);
}

#[test]
fn inject_appends_when_no_tag() {
    let result = inject_hot_reload_script("plain", 80);
    assert!(result.starts_with("plain"));
    assert!(result.contains("ws://127.0.0.1:80/"));
}

#[test]
fn sanitize_collapses_and_refuses() {
    assert_eq!(sanitize_path("/a/b.c").unwrap(), "/a/b.c");
    assert!(matches!(sanitize_path("/a/../b"), Err(ServerError::PathTraversal)));
}

#[test]
fn url_decode_keeps_bad_escape() {
    assert_eq!(url_decode("%zz"), "%zz");
    assert_eq!(url_decode("%41%42"), "AB");
}

#[test]
fn error_response_carries_code_and_escaped_message() {
    let resp = create_error_response(500, "<oops>");
    assert_eq!(resp.status, 500);
    let body = String::from_utf8(resp.body).unwrap();
    assert!(body.contains("500"));
    assert!(body.contains("&lt;oops&gt;"));
}

#[test]
fn mime_falls_back_for_unknown() {
    assert_eq!(guess_mime_for_path("x.js"), "application/javascript; charset=utf-8");
    assert_eq!(guess_mime_for_path("x.unknownext"), "application/octet-stream");
}

#[test]
fn url_path_drops_query() {
    assert_eq!(url_path("/a/b.html?x=1"), "/a/b.html");
    assert_eq!(url_path("/plain"), "/plain");
}

#[test]
fn host_allowed_by_name_without_port() {
    let allowed = vec!["example.com".to_string()];
    assert!(host_allowed(&allowed, "example.com:8080"));
    assert!(!host_allowed(&allowed, "evil.com"));
    assert!(host_allowed(&Vec::new(), "anything"));
}

#[test]
fn resolve_root_to_entry() {
    let p = resolve_request_file("/", "/proj", "index.html").unwrap();
    assert!(p.ends_with("index.html"));
    assert!(p.starts_with("/proj"));
    assert!(resolve_request_file("/../x", "/proj", "index.html").is_err());
}

#[test]
fn choose_source_prefers_nc_for_html() {
    assert!(matches!(choose_source(true, true, true), SourceChoice::CompileNc));
    assert!(matches!(choose_source(true, false, false), SourceChoice::NotFound));
    assert!(matches!(choose_source(false, true, true), SourceChoice::Serve));
}

#[test]
fn compiled_response_is_html_with_reload() {
    let config = NefuConfig::default();
    let resp = compiled_response("<head></head>", 9000, &config);
    assert_eq!(resp.status, 200);
    let body = String::from_utf8(resp.body).unwrap();
    assert!(body.contains("ws://127.0.0.1:9000"));
}

#[test]
fn text_frame_short_payload() {
    let frame = websocket_text_frame(b"reload");
    assert_eq!(frame[0], 0x81);
    assert_eq!(frame[1], 6);
    assert_eq!(&frame[2..], b"reload");
}

#[test]
fn text_frame_medium_payload() {
    let payload = vec![b'a'; 200];
    let frame = websocket_text_frame(&payload);
    assert_eq!(frame[0], 0x81);
    assert_eq!(frame[1], 126);
    assert_eq!(frame[2], 0);
    assert_eq!(frame[3], 200);
    assert_eq!(frame.len(), 204);
}

#[test]
fn reload_extensions() {
    assert!(is_reload_extension("html"));
    assert!(is_reload_extension("nc"));
    assert!(is_reload_extension("PNG"));
    assert!(!is_reload_extension("txt"));
}

#[test]
fn handshake_accepts_upgrade() {
    let req = "GET / HTTP/1.1\r\nHost: x\r\nUpgrade: websocket\r\nConnection: Upgrade\r\nSec-WebSocket-Key: dGhlIHNhbXBsZSBub25jZQ==\r\n\r\n";
    let reply = handshake_reply(req).unwrap();
    assert!(reply.starts_with("HTTP/1.1 101"));
    assert!(reply.contains("evRRRcnbilln1hhKoXsmWwBZTkY="));
}

#[test]
fn handshake_refuses_plain_request() {
    let req = "GET / HTTP/1.1\r\nHost: x\r\n\r\n";
    assert!(handshake_reply(req).is_err());
    let _unused: Option<HandshakeRejection> = None;
}
#[test]
fn reload_message_format() { assert_eq!(nefu::server::reload_message("a \"b\".html"), "{\"file\":\"a \\\"b\\\".html\",\"type\":\"reload\"}"); }

#[test]
fn reload_message_escapes_control_characters() {
    assert_eq!(
        nefu::server::reload_message("a\\b\n\t\u{1}.html"),
        "{\"file\":\"a\\\\b\\n\\t\\u0001.html\",\"type\":\"reload\"}"
    );
}
