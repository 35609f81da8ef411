use nefu::config::{create_default_config, is_valid_semver, NefuConfig, VERSION};
use nefu::glob::glob_match;

#[test]
fn test_default_config() {
    let config = NefuConfig::default();
    assert_eq!(config.entry, "index.html");
    assert_eq!(config.output, "myapp");
    assert_eq!(config.window_width, 1024);
    assert_eq!(config.window_height, 768);
    assert!(config.resizable);
    assert!(!config.debug);
}

#[test]
fn test_config_validation_valid() {
    let config = NefuConfig::default();
    assert!(config.validate().is_ok());
}

#[test]
fn test_config_validation_invalid_width() {
    let mut config = NefuConfig::default();
    config.window_width = 100;
    assert!(config.validate().is_err());
}

#[test]
fn test_config_validation_invalid_output() {
    let mut config = NefuConfig::default();
    config.output = "my app!".to_string();
    assert!(config.validate().is_err());
}

#[test]
fn test_is_valid_semver() {
    assert!(is_valid_semver("1.0.0"));
    assert!(is_valid_semver("0.1.0"));
    assert!(is_valid_semver("10.20.30"));
    assert!(!is_valid_semver("1.0"));
    assert!(!is_valid_semver("abc"));
    assert!(!is_valid_semver("1.0.0.0"));
}

#[test]
fn test_glob_match() {
    assert!(glob_match("*.html", "index.html"));
    assert!(glob_match("dist/**", "dist/output/app.exe"));
    assert!(glob_match("**/*.log", "logs/debug.log"));
    assert!(!glob_match("*.css", "index.html"));
}

#[test]
fn test_glob_match_multi_star() {
    assert!(glob_match("a*b*c", "axxxbzzc"));
    assert!(glob_match("a*b*c", "abc"));
    assert!(!glob_match("a*b*c", "axxb"));
    assert!(!glob_match("a/*/c", "a/b/d/c"));
    assert!(glob_match("a/**/c", "a/b/d/c"));
    assert!(glob_match("file?.txt", "file1.txt"));
    assert!(!glob_match("file?.txt", "file10.txt"));
}

#[test]
fn test_get_title() {
    let mut config = NefuConfig::default();
    assert_eq!(config.get_title(), "myapp");

    config.title = Some("My App".to_string());
    assert_eq!(config.get_title(), "My App");
}

#[test]
fn test_is_excluded() {
    let config = NefuConfig::default();
    assert!(config.is_excluded("dist/output.exe"));
    assert!(config.is_excluded(".nefu/cache"));
    assert!(config.is_excluded("node_modules/pkg/index.js"));
    assert!(!config.is_excluded("src/main.rs"));
    assert!(!config.is_excluded("index.html"));
}

#[test]
fn test_load_from_bytes() {
    let toml = b"entry = \"app/index.html\"\noutput = \"demo\"\nwindow_width = 1280\nwindow_height = 800\n";
    let config = NefuConfig::load_from_bytes(toml).unwrap();
    assert_eq!(config.entry, "app/index.html");
    assert_eq!(config.output, "demo");
    assert_eq!(config.window_width, 1280);
    assert_eq!(config.window_height, 800);
}

#[test]
fn test_load_from_bytes_invalid() {
    let bad = b"not valid toml [[[";
    assert!(NefuConfig::load_from_bytes(bad).is_err());

    let bad_width = b"entry = \"index.html\"\nwindow_width = 5\n";
    assert!(NefuConfig::load_from_bytes(bad_width).is_err());
}

#[test]
fn test_load_sectioned_format() {
    let toml_str = r#"
[app]
name = "My App"
version = "2.1.0"
width = 1280
height = 800
resizable = true
fullscreen = false

[build]
entry = "pages/app.html"
preload = "preload.js"
output = "dist/deploy.exe"

[window]
title = "Main Window"
min_width = 900
min_height = 600
frameless = true
"#;
    let config = NefuConfig::load_from_str(toml_str).unwrap();
    assert_eq!(config.output, "deploy");
    assert_eq!(config.version, "2.1.0");
    assert_eq!(config.entry, "pages/app.html");
    assert_eq!(config.preload.as_deref(), Some("preload.js"));
    assert_eq!(config.window_width, 1280);
    assert_eq!(config.window_height, 800);
    assert_eq!(config.min_width, Some(900));
    assert_eq!(config.min_height, Some(600));
    assert!(!config.decorations);
    assert_eq!(config.get_title(), "Main Window");
}

#[test]
fn test_flat_format_still_works() {
    let toml_str = r#"
entry = "index.html"
output = "myapp"
window_width = 1024
window_height = 768
"#;
    let config = NefuConfig::load_from_str(toml_str).unwrap();
    assert_eq!(config.entry, "index.html");
    assert_eq!(config.output, "myapp");
    assert_eq!(config.window_width, 1024);
    assert_eq!(config.window_height, 768);
}

#[test]
fn test_create_default_config() {
    let content = create_default_config("testapp");
    assert!(content.contains("testapp"));
    assert!(content.contains("entry"));
}

#[test]
fn test_min_max_validation() {
    let mut config = NefuConfig::default();
    config.min_width = Some(800);
    config.max_width = Some(400);
    assert!(config.validate().is_err());
}

#[test]
fn test_version_constant() {
    assert!(!VERSION.is_empty());
}

// ---- further cases ----

#[test]
fn load_from_bytes_refuses_invalid_utf8() {
    assert!(matches!(
        NefuConfig::load_from_bytes(&[0xff, 0xfe, 0x00]),
        Err(nefu::config::ConfigError::NotUtf8)
    ));
}

#[test]
fn load_from_str_names_field_of_wrong_type() {
    match NefuConfig::load_from_str("entry = 3\ndebug = \"yes\"\n") {
        Err(nefu::config::ConfigError::InvalidField(name)) => assert_eq!(name, "entry"),
        _ => panic!("expected a field error"),
    }
}

#[test]
fn load_from_str_refuses_negative_width() {
    match NefuConfig::load_from_str("window_width = -5\n") {
        Err(nefu::config::ConfigError::InvalidField(name)) => assert_eq!(name, "window_width"),
        _ => panic!("expected a field error"),
    }
}

#[test]
fn load_from_str_keeps_defaults_for_absent_fields() {
    let c = NefuConfig::load_from_str("output = \"x\"\n").unwrap();
    assert_eq!(c.entry, "index.html");
    assert_eq!(c.protocol, "nefu");
    assert_eq!(c.exclude.len(), 22);
    assert_eq!(c.user_agent, format!("nefu/{}", VERSION));
}

#[test]
fn load_from_str_reads_tables_and_lists() {
    let c = NefuConfig::load_from_str(
        "allowed_domains = [\"a.com\", \"b.com\"]\n[headers]\nX-A = \"1\"\n",
    )
    .unwrap();
    assert_eq!(c.allowed_domains, vec!["a.com".to_string(), "b.com".to_string()]);
    assert_eq!(c.headers, vec![("X-A".to_string(), "1".to_string())]);
}

#[test]
fn sectioned_layout_ignores_top_level_fields() {
    let c = NefuConfig::load_from_str("entry = \"other.html\"\n[dev]\nport = 1\n").unwrap();
    assert_eq!(c.entry, "index.html");
}

#[test]
fn validation_reports_first_failing_check() {
    let mut config = NefuConfig::default();
    config.window_width = 10;
    config.window_height = 10;
    assert!(matches!(
        config.validate(),
        Err(nefu::config::ConfigError::WindowWidthOutOfRange(10))
    ));
    let mut c2 = NefuConfig::default();
    c2.protocol = " ".to_string();
    assert!(matches!(c2.validate(), Err(nefu::config::ConfigError::EmptyProtocol)));
}

#[test]
fn config_paths_join_project_dir() {
    let mut c = NefuConfig::default();
    assert_eq!(c.entry_path("/proj"), "/proj/index.html");
    assert_eq!(c.icon_path("/proj"), None);
    c.preload = Some("p.js".to_string());
    assert_eq!(c.preload_path("/proj"), Some("/proj/p.js".to_string()));
}
