use nefu::app_module::get_locale_country_code;
use nefu::auto_updater::{AutoUpdater, UpdateStatus, UpdaterError};
use nefu::bridge::{
    callback_json, event_message, find_similar_methods, generate_full_bridge_script, is_safe_path,
    sanitize_key, unknown_method_error, url_allowed,
};
use nefu::cli::{target_extension, validate_build_args, validate_target, BuildArgs, BuildArgsError};
use nefu::content_tracing::{ContentTracing, TracingError};
use nefu::context_bridge::{
    extract_domain, generate_safe_ipc_script, json_string_array, validate_message_origin,
    ContextBridgeConfig,
};
use nefu::crash_reporter::{crash_file_name, format_timestamp, system_info_text, CrashReporterConfig};
use nefu::dock::{BounceType, DockManager};
use nefu::global_shortcut::{code_from_str, convert_accelerator, parse_hotkey, KeyCode};
use nefu::native_theme::{NativeTheme, ThemeSource};
use nefu::notifications::{
    console_notification_text, is_urgent, notification_timeout, send_simple_notification,
};
use nefu::process_info::{get_system_memory_info, get_versions, system_memory_info};
use nefu::protocol_handler::{ProtocolManager, ProtocolManagerError};
use nefu::rendering::{generate_performance_css, generate_render_optimization_script, RenderConfig, RenderingMode};
use nefu::session::{Cookie, CookieFilter, SessionManager};

// ---- cli ----

#[test]
fn test_validate_target_valid() {
    assert!(validate_target("exe").is_ok());
    assert!(validate_target("app").is_ok());
    assert!(validate_target("bin").is_ok());
    assert!(validate_target(".apk").is_ok());
}

#[test]
fn test_validate_target_invalid() {
    assert!(validate_target("").is_err());
    assert!(validate_target("windows").is_err());
    assert!(validate_target("apk").is_err());
}

#[test]
fn test_target_extension() {
    assert_eq!(target_extension("exe"), "exe");
    assert_eq!(target_extension("app"), "app");
    assert_eq!(target_extension("bin"), "bin");
    assert_eq!(target_extension(".apk"), "apk");
    assert_eq!(target_extension("unknown"), "bin");
}

fn build_args(target: &str, config: Option<&str>) -> BuildArgs {
    BuildArgs {
        target: target.to_string(),
        config: config.map(|s| s.to_string()),
        installer: false,
        output_dir: None,
        no_compress: false,
        no_encrypt: false,
        verbose: false,
    }
}

#[test]
fn build_args_checks_target_then_config() {
    assert!(validate_build_args(&build_args("exe", None), false).is_ok());
    assert!(validate_build_args(&build_args("exe", Some("a.nefu")), true).is_ok());
    match validate_build_args(&build_args("exe", Some("a.nefu")), false) {
        Err(BuildArgsError::ConfigNotFound(p)) => assert_eq!(p, "a.nefu"),
        other => panic!("unexpected {:?}", other),
    }
    match validate_build_args(&build_args("dos", Some("a.nefu")), false) {
        Err(BuildArgsError::UnsupportedTarget(m)) => {
            assert_eq!(m, "unsupported target platform 'dos'. Supported formats: exe, app, bin, .apk")
        }
        other => panic!("unexpected {:?}", other),
    }
}

// ---- context bridge ----

#[test]
fn test_context_bridge_config_default() {
    let config = ContextBridgeConfig::default();
    assert!(config.context_isolation);
    assert!(config.allowed_apis.contains(&"nefu".to_string()));
}

#[test]
fn test_extract_domain() {
    assert_eq!(extract_domain("nefu://localhost/index.html"), Some("localhost".to_string()));
    assert_eq!(extract_domain("https://example.com:8080/path"), Some("example.com".to_string()));
    assert!(extract_domain("invalid-url").is_none());
}

#[test]
fn test_validate_message_origin() {
    assert!(validate_message_origin("nefu://localhost/index.html", &[]));
    assert!(validate_message_origin("nefu://localhost/index.html", &["localhost".to_string()]));
    assert!(!validate_message_origin("nefu://evil.com/index.html", &["localhost".to_string()]));
}

#[test]
fn test_generate_safe_ipc_script() {
    let apis = vec!["nefu".to_string(), "lj".to_string()];
    let script = generate_safe_ipc_script(&apis);
    assert!(script.contains("nefu"));
    assert!(script.contains("lj"));
    assert!(script.contains("__nefu_safe_ipc"));
}

#[test]
fn json_array_quotes_names() {
    assert_eq!(json_string_array(&["a".to_string(), "b\"c".to_string()]), "[\"a\",\"b\\\"c\"]");
    assert_eq!(json_string_array(&[]), "[]");
}

#[test]
fn origin_without_domain_is_refused_when_list_given() {
    assert!(!validate_message_origin("no-scheme", &["localhost".to_string()]));
}

// ---- crash reporter ----

#[test]
fn test_crash_reporter_config_default() {
    let config = CrashReporterConfig::with_base_dir("/data");
    assert_eq!(config.company_name, "Nefu");
    assert!(!config.crash_dir.is_empty());
}

#[test]
fn test_format_timestamp() {
    let formatted = format_timestamp(0);
    assert!(formatted.contains("1970"));
}

#[test]
fn timestamp_fields() {
    assert_eq!(format_timestamp(0), "1970-01-01 00:00:00");
    assert_eq!(format_timestamp(3661), "1970-01-01 01:01:01");
    assert_eq!(format_timestamp(86400 * 31), "1970-02-02 00:00:00");
}

#[test]
fn crash_file_name_replaces_separators() {
    assert_eq!(crash_file_name("1970-01-01 01:02:03", 42), "crash_1970-01-01_01-02-03_42.json");
}

#[test]
fn system_info_lines() {
    assert_eq!(system_info_text("linux", "x86_64", 7), "OS: linux\nArch: x86_64\nPID: 7\n");
}

// ---- global shortcut ----

#[test]
fn test_convert_accelerator() {
    assert_eq!(convert_accelerator("CommandOrControl+S"), "Ctrl+S");
    assert_eq!(convert_accelerator("Command+Shift+A"), "Meta+Shift+A");
    assert_eq!(convert_accelerator("Alt+Shift+Z"), "Alt+Shift+Z");
}

#[test]
fn test_parse_hotkey() {
    let hotkey = parse_hotkey("Ctrl+Shift+A").unwrap();
    assert!(hotkey.modifiers.control);
    assert!(hotkey.modifiers.shift);
}

#[test]
fn test_code_from_str() {
    assert_eq!(code_from_str("A"), KeyCode::KeyA);
    assert_eq!(code_from_str("f1"), KeyCode::F1);
    assert_eq!(code_from_str("enter"), KeyCode::Enter);
    assert_eq!(code_from_str("space"), KeyCode::Space);
}

#[test]
fn hotkey_key_and_unknown_modifier() {
    let h = parse_hotkey("Alt+F5").unwrap();
    assert_eq!(h.code, KeyCode::F5);
    assert!(h.modifiers.alt && !h.modifiers.control && !h.modifiers.shift && !h.modifiers.meta);
    assert_eq!(parse_hotkey("Ctrl+Shift").unwrap().code, KeyCode::KeyA);
}

// ---- rendering ----

#[test]
fn test_render_config_default() {
    let config = RenderConfig::default();
    assert!(config.hardware_acceleration);
    assert_eq!(config.frame_rate_limit, 0);
    assert!(config.smooth_scrolling);
}

#[test]
fn test_rendering_mode() {
    assert_eq!(RenderingMode::Auto.recommended_frame_limit(), 0);
    assert_eq!(RenderingMode::HighPerformance.recommended_frame_limit(), 60);
    assert_eq!(RenderingMode::PowerSaving.recommended_frame_limit(), 30);
}

#[test]
fn test_generate_script() {
    let config = RenderConfig::default();
    let script = generate_render_optimization_script(&config);
    assert!(!script.is_empty());
    assert!(script.contains("__nefu_render_mode"));
}

#[test]
fn test_generate_css() {
    let css = generate_performance_css();
    assert!(!css.is_empty());
    assert!(css.contains("GPU"));
}

#[test]
fn frame_limit_appears_in_script() {
    let mut config = RenderConfig::default();
    config.frame_rate_limit = 30;
    config.rendering_mode = RenderingMode::PowerSaving;
    let script = generate_render_optimization_script(&config);
    assert!(script.contains("window.__nefu_fps_limit = 30;"));
    assert!(script.contains("window.__nefu_render_mode = 'power-saving';"));
}

// ---- auto updater ----

#[test]
fn test_auto_updater_creation() {
    let updater = AutoUpdater::new("https://example.com/update.json".to_string(), "1.0.0".to_string());
    assert!(!updater.is_downloading());
    assert!(updater.get_latest_update().is_none());
}

#[test]
fn update_response_cases() {
    let mut u = AutoUpdater::new("https://x/u.json".to_string(), "1.0.0".to_string());
    assert!(matches!(u.apply_update_response(Ok("1.0.0".to_string())), UpdateStatus::UpToDate));
    assert!(matches!(u.apply_update_response(Ok(String::new())), UpdateStatus::Error(_)));
    match u.apply_update_response(Err("offline".to_string())) {
        UpdateStatus::Error(m) => assert_eq!(m, "Check failed: offline"),
        other => panic!("unexpected {:?}", other),
    }
    let body = "{\"version\":\"1.1.0\",\"notes\":\"fixes\",\"file_size\":12}";
    assert!(matches!(u.apply_update_response(Ok(body.to_string())), UpdateStatus::UpdateAvailable));
    let info = u.get_latest_update().unwrap();
    assert_eq!(info.version, "1.1.0");
    assert_eq!(info.release_notes.as_deref(), Some("fixes"));
    assert_eq!(info.download_url, "https://x/u.json");
    assert_eq!(info.file_size, Some(12));
}

#[test]
fn download_twice_is_refused() {
    let mut u = AutoUpdater::new("u".to_string(), "1".to_string());
    assert!(u.begin_download().is_ok());
    assert_eq!(u.begin_download(), Err(UpdaterError::DownloadInProgress));
    u.finish_download();
    assert!(!u.is_downloading());
}

// ---- process info ----

#[test]
fn test_get_versions() {
    let versions = get_versions();
    assert!(!versions.nefu_version.is_empty());
    assert!(!versions.app_version.is_empty());
}

#[test]
fn test_get_system_memory_info() {
    let mem = get_system_memory_info();
    assert!(mem.total > 0);
}

#[test]
fn memory_info_in_kilobytes() {
    let m = system_memory_info(4096, 2048, 1024, 0);
    assert_eq!(m.total, 4096);
    assert_eq!(m.free, 2048);
    assert_eq!(m.used, 2048);
}

// ---- bridge ----

#[test]
fn test_is_safe_path() {
    assert!(is_safe_path("./data/file.txt"));
    assert!(is_safe_path("resources/icon.png"));
    assert!(!is_safe_path("../etc/passwd"));
    assert!(!is_safe_path("/etc/shadow"));
}

#[test]
fn test_sanitize_key() {
    assert_eq!(sanitize_key("my-key"), "my-key");
    assert_eq!(sanitize_key("my key!"), "my_key_");
    assert_eq!(sanitize_key("a.b/c"), "a_b_c");
}

#[test]
fn test_generate_bridge_script_not_empty() {
    let script = generate_full_bridge_script();
    assert!(script.len() > 100);
    assert!(script.contains("nefu"));
    assert!(script.contains("invoke"));
    assert!(script.contains("lj"));
}

// ---- app ----

#[test]
fn locale_country() {
    assert_eq!(get_locale_country_code("en-GB"), "GB");
    assert_eq!(get_locale_country_code("fr"), "US");
}

// ---- dock ----

#[test]
fn dock_badge_bounce_visibility() {
    let mut d = DockManager::new();
    assert_eq!(d.get_badge(), "");
    d.set_badge("3").unwrap();
    assert_eq!(d.get_badge(), "3");
    assert_eq!(d.bounce(BounceType::Critical), 0);
    assert_eq!(d.bounce(BounceType::Informational), 1);
    assert!(d.is_visible());
    d.hide_icon().unwrap();
    assert!(!d.is_visible());
    d.show().unwrap();
    assert!(d.is_visible());
}

// ---- theme ----

#[test]
fn theme_source_changes_notify_once() {
    let mut t = NativeTheme::new();
    assert_eq!(t.theme_source(), ThemeSource::System);
    assert!(t.should_use_dark_colors(true));
    assert_eq!(t.set_theme_source(ThemeSource::Light), Ok(true));
    assert_eq!(t.set_theme_source(ThemeSource::Light), Ok(false));
    assert!(!t.should_use_dark_colors(true));
    for s in [ThemeSource::System, ThemeSource::Light, ThemeSource::Dark] {
        assert_eq!(ThemeSource::from_u8(s.as_u8()), s);
    }
}

// ---- tracing ----

#[test]
fn tracing_start_finish() {
    let mut t = ContentTracing::new();
    assert_eq!(t.finish_recording().unwrap_err(), TracingError::NotRecording);
    t.start_recording(None).unwrap();
    assert!(t.is_recording());
    assert_eq!(t.start_recording(None).unwrap_err(), TracingError::AlreadyRecording);
    let json = t.finish_recording().unwrap();
    assert!(json.starts_with("{\"displayTimeUnit\":\"ms\""));
    assert!(json.ends_with("\"traceEvents\":[]}"));
    assert!(!t.is_recording());
    assert_eq!(t.get_categories().len(), 15);
}

// ---- session ----

fn cookie(name: &str, value: &str, domain: &str) -> Cookie {
    Cookie {
        name: name.to_string(),
        value: value.to_string(),
        domain: domain.to_string(),
        path: "/".to_string(),
        secure: false,
        http_only: false,
        session: true,
        expiration_date_bits: None,
        same_site: "lax".to_string(),
    }
}

#[test]
fn cookies_replace_filter_remove() {
    let mut s = SessionManager::new();
    s.set_cookie(cookie("a", "1", "example.com")).unwrap();
    s.set_cookie(cookie("b", "2", "other.org")).unwrap();
    s.set_cookie(cookie("a", "3", "example.com")).unwrap();
    let all = s.get_cookies(None);
    assert_eq!(all.len(), 2);
    assert_eq!(all[0].value, "3");
    let filter = CookieFilter {
        domain: Some("example".to_string()),
        name: None,
        path: None,
        secure: None,
        session: None,
        url: None,
    };
    let some = s.get_cookies(Some(filter));
    assert_eq!(some.len(), 1);
    assert_eq!(some[0].name, "a");
    s.remove_cookie("https://example.com/", "a").unwrap();
    assert_eq!(s.get_cookies(None).len(), 1);
    assert!(s.is_online());
    s.set_online(false);
    assert!(!s.is_online());
    assert_eq!(s.get_proxy().mode, "system");
}

// ---- protocol manager ----

#[test]
fn protocol_manager_register_and_handle() {
    let mut m = ProtocolManager::new();
    assert_eq!(m.register_string_protocol("App"), Ok(true));
    assert_eq!(m.register_file_protocol("app"), Ok(false));
    assert!(m.is_protocol_handled("app"));
    let req = m.handle_request("app://x/y").unwrap();
    assert_eq!(req.method, "GET");
    assert_eq!(req.url, "app://x/y");
    match m.handle_request("zzz://q") {
        Err(ProtocolManagerError::Unregistered(s)) => assert_eq!(s, "zzz"),
        other => panic!("unexpected {:?}", other),
    }
    assert_eq!(m.unregister_protocol("APP"), Ok(true));
    assert!(!m.is_protocol_handled("app"));
    assert!(m.get_registered_protocols().is_empty());
}

// ---- notifications ----

#[test]
fn notification_defaults_and_text() {
    let mut n = send_simple_notification("Hi", "there");
    assert_eq!(notification_timeout(&n), 5000);
    assert!(!is_urgent(&n));
    assert_eq!(console_notification_text(&n), "\n[NOTIFICATION] Hi - there\n");
    n.urgent = Some(true);
    n.timeout = Some(10);
    assert_eq!(notification_timeout(&n), 10);
    assert_eq!(console_notification_text(&n), "\n[!!!] Hi - there\n");
}

// ---- bridge messages ----

#[test]
fn bridge_messages() {
    assert!(url_allowed("https://x"));
    assert!(!url_allowed("file:///etc"));
    assert_eq!(
        unknown_method_error("nope"),
        "unknown method: 'nope'. use nefu.listMethods() to list the available methods"
    );
    assert_eq!(callback_json(7, Some("[1,2]"), None), "{\"type\":\"callback\",\"id\":7,\"result\":[1,2]}");
    assert_eq!(callback_json(1, None, Some("bad \"x\"")), "{\"type\":\"callback\",\"id\":1,\"error\":\"bad \\\"x\\\"\"}");
    assert_eq!(callback_json(2, None, None), "{\"type\":\"callback\",\"id\":2}");
    assert_eq!(event_message("tick", "true"), "{\"type\":\"event\",\"event\":\"tick\",\"data\":true}");
}

#[test]
fn similar_methods_sorted_and_limited() {
    let names: Vec<String> = ["window.close", "window.center", "window.focus", "app.quit", "window.blur"]
        .iter()
        .map(|s| s.to_string())
        .collect();
    let r = find_similar_methods(&names, "window.clos");
    assert_eq!(r, vec!["window.blur".to_string(), "window.center".to_string(), "window.close".to_string(), "window.focus".to_string()]);
    assert!(find_similar_methods(&names, "window.close").iter().all(|m| m != "window.close"));
    let many: Vec<String> = (0..9).map(|i| format!("fs.m{}", i)).collect();
    assert_eq!(find_similar_methods(&many, "fs.x").len(), 5);
}

#[test]
fn panic_reports() {
    let mut config = CrashReporterConfig::with_base_dir("/tmp");
    config.extra = vec![("user".to_string(), "7".to_string())];
    let r = nefu::crash_reporter::panic_report(
        &config,
        "linux",
        "1970-01-01 00:00:00".to_string(),
        Some("boom".to_string()),
        Some(("src/main.rs".to_string(), 12)),
        "OS: linux\n".to_string(),
    );
    assert_eq!(r.version, "1.0.0");
    assert_eq!(r.error_message, "boom");
    assert_eq!(r.error_type, "Panic");
    assert_eq!(r.stack_trace, "Panic at: src/main.rs:12\n\nError: boom");
    assert_eq!(r.system_info, Some("OS: linux\n".to_string()));
    assert_eq!(r.extra, vec![("user".to_string(), "7".to_string())]);
    config.include_system_info = false;
    let r = nefu::crash_reporter::panic_report(&config, "linux", "t".to_string(), None, None, "x".to_string());
    assert_eq!(r.error_message, "Unknown panic");
    assert_eq!(r.stack_trace, "Panic at: Unknown location\n\nError: Unknown panic");
    assert_eq!(r.system_info, None);
    let t = nefu::crash_reporter::test_report(&config, "linux", "t".to_string(), "x".to_string());
    assert_eq!(t.error_type, "Test");
    assert_eq!(t.stack_trace, "test\nbacktrace\nline 3");
}

#[test]
fn test_get_path_invalid() {
    let path = nefu::app_module::path_kind("nonexistent");
    assert_eq!(path, Err("unknown path name: nonexistent".to_string()));
}

#[test]
fn path_names() {
    assert_eq!(nefu::app_module::path_kind("home"), Ok(nefu::app_module::PathKind::Home));
    assert_eq!(nefu::app_module::path_kind("crashDumps"), Ok(nefu::app_module::PathKind::CrashDumps));
    assert!(nefu::app_module::path_kind("Home").is_err());
    assert_eq!(nefu::app_module::user_data_subdir(nefu::app_module::PathKind::Logs), Some("logs"));
    assert_eq!(nefu::app_module::user_data_subdir(nefu::app_module::PathKind::Home), None);
}

#[test]
fn shortcut_registry() {
    let mut m = nefu::global_shortcut::GlobalShortcutManager::new();
    let h = m.hotkey_for("CommandOrControl+Shift+K").unwrap();
    assert!(h.modifiers.control && h.modifiers.shift && !h.modifiers.alt);
    m.record("CommandOrControl+Shift+K", h);
    assert!(m.is_registered("CommandOrControl+Shift+K"));
    assert!(m.hotkey_for("CommandOrControl+Shift+K").is_none());
    let h2 = m.hotkey_for("Alt+F4").unwrap();
    m.record("Alt+F4", h2);
    assert_eq!(m.get_registered(), vec!["CommandOrControl+Shift+K", "Alt+F4"]);
    assert_eq!(m.unregister("CommandOrControl+Shift+K"), Some(h));
    assert_eq!(m.unregister("CommandOrControl+Shift+K"), None);
    assert!(!m.is_registered("CommandOrControl+Shift+K"));
    assert_eq!(m.unregister_all(), vec![h2]);
    assert!(m.get_registered().is_empty());
}
