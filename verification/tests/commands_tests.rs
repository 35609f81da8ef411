use nefu::project_init::{chooses_nc_template, confirms_reinit};
use nefu::scripts::{script_command, script_failure_message};
use nefu::updates::{remote_version, update_status, UpdateCheck};

fn scripts() -> Vec<(String, String)> {
    vec![
        ("build".to_string(), "cargo build".to_string()),
        ("test".to_string(), "cargo test".to_string()),
    ]
}

#[test]
fn script_found_without_args() {
    assert_eq!(script_command(&scripts(), "build", &vec![]), Ok("cargo build".to_string()));
}

#[test]
fn script_found_with_args() {
    let args = vec!["--release".to_string(), "-q".to_string()];
    assert_eq!(script_command(&scripts(), "test", &args), Ok("cargo test --release -q".to_string()));
}

#[test]
fn script_missing_lists_the_others() {
    assert_eq!(
        script_command(&scripts(), "lint", &vec![]),
        Err("script 'lint' not found.\navailable scripts: build, test".to_string())
    );
    assert_eq!(
        script_command(&vec![], "lint", &vec![]),
        Err("script 'lint' not found.\navailable scripts: (none)".to_string())
    );
}

#[test]
fn script_failures() {
    assert_eq!(script_failure_message("build", Some(2)), "script 'build' exited with status code: 2");
    assert_eq!(script_failure_message("build", Some(-1)), "script 'build' exited with status code: -1");
    assert_eq!(script_failure_message("build", None), "script 'build' terminated by a signal");
}

#[test]
fn remote_version_from_json_or_text() {
    assert_eq!(remote_version("{\"version\": \"1.4.0\", \"notes\": \"x\"}"), "1.4.0");
    assert_eq!(remote_version("  2.0.1\n"), "2.0.1");
    assert_eq!(remote_version("{\"version\": 3}"), "{\"version\": 3}");
    assert_eq!(remote_version("\"1.0.0\""), "\"1.0.0\"");
    assert_eq!(remote_version("   "), "");
}

#[test]
fn update_status_compares_versions() {
    assert_eq!(update_status("", "1.0.0"), UpdateCheck::NoVersion);
    assert_eq!(update_status("1.0.1", "1.0.0"), UpdateCheck::Available);
    assert_eq!(update_status("1.0.0", "1.0.0"), UpdateCheck::Current);
}

#[test]
fn init_answers() {
    assert!(confirms_reinit("y\n"));
    assert!(confirms_reinit(" YES "));
    assert!(!confirms_reinit(""));
    assert!(!confirms_reinit("no"));
    assert!(chooses_nc_template("\n"));
    assert!(chooses_nc_template("2"));
    assert!(!chooses_nc_template("1\n"));
    assert!(!chooses_nc_template("basic"));
    assert!(!chooses_nc_template("Basic"));
    assert!(chooses_nc_template("BASIC"));
}
