use nefu::android::{
    android_dirs, asset_url, is_copied_file, is_excluded_dir, local_properties, main_activity_java, manifest_xml,
    strings_xml, MAIN_ACTIVITY_HEAD, MAIN_ACTIVITY_MIDDLE, MAIN_ACTIVITY_TAIL,
};
use nefu::bundle::{app_bundle_name, info_plist, nsis_script};
use nefu::config::NefuConfig;
use nefu::config_override::{apply_config_override, OverrideOutcome};
use nefu::cpp_compiler::{compile_plan, CompileError, Language};

#[test]
fn cpp_plan_for_c_source() {
    let plan = compile_plan("src/hello.c", Some("out/hello"), &vec![], false).unwrap();
    assert_eq!(plan.language, Language::C);
    assert_eq!(plan.output, "out/hello");
    assert_eq!(plan.candidates, vec!["gcc", "clang", "cc"]);
    assert_eq!(plan.args, vec!["src/hello.c", "-o", "out/hello", "-O2"]);
}

#[test]
fn cpp_plan_for_cpp_source_keeps_its_level() {
    let options = vec!["-Wall".to_string(), "-O0".to_string()];
    let plan = compile_plan("main.CPP", Some("main"), &options, false).unwrap();
    assert_eq!(plan.language, Language::Cpp);
    assert_eq!(plan.candidates, vec!["g++", "clang++", "c++"]);
    assert_eq!(plan.args, vec!["main.CPP", "-Wall", "-O0", "-o", "main"]);
}

#[test]
fn cpp_plan_default_output_beside_source() {
    let plan = compile_plan("/tmp/work/tool.c", None, &vec![], false).unwrap();
    assert_eq!(plan.output, "/tmp/work/tool");
    let plan = compile_plan("/tmp/work/tool.cpp", None, &vec![], true).unwrap();
    assert_eq!(plan.output, "/tmp/work/tool.exe");
}

#[test]
fn cpp_plan_refuses_other_files() {
    match compile_plan("notes.TXT", None, &vec![], false) {
        Err(CompileError::UnsupportedType(e)) => assert_eq!(e, "txt"),
        Ok(_) => panic!("a text file was accepted"),
    }
    let err = compile_plan("Makefile", None, &vec![], false).unwrap_err();
    assert_eq!(err.message(), "unsupported file type '.'; only .c and .cpp files are supported");
}

#[test]
fn android_directories() {
    let dirs = android_dirs();
    assert_eq!(dirs.len(), 6);
    assert_eq!(dirs[0], "app/src/main/assets");
    assert_eq!(dirs[5], "gradle/wrapper");
}

#[test]
fn android_excluded_directories() {
    assert!(is_excluded_dir("node_modules"));
    assert!(is_excluded_dir(".git"));
    assert!(is_excluded_dir("android"));
    assert!(!is_excluded_dir("assets"));
    assert!(!is_excluded_dir("Dist"));
}

#[test]
fn android_copied_files() {
    assert!(is_copied_file("index.html"));
    assert!(is_copied_file("logo.png"));
    assert!(!is_copied_file("main.nc"));
    assert!(!is_copied_file("nefu.toml"));
    assert!(!is_copied_file(".env"));
    assert!(!is_copied_file("nefu"));
    assert!(!is_copied_file("nefu.exe"));
    assert!(!is_copied_file("app.apk"));
}

#[test]
fn android_asset_url_strips_leading_parts() {
    assert_eq!(asset_url("index.html"), "file:///android_asset/web/index.html");
    assert_eq!(asset_url("./pages/a.html"), "file:///android_asset/web/pages/a.html");
    assert_eq!(asset_url("/index.html"), "file:///android_asset/web/index.html");
}

#[test]
fn android_generated_files() {
    let java = main_activity_java("./index.html");
    assert!(java.starts_with(MAIN_ACTIVITY_HEAD));
    assert!(java.contains(MAIN_ACTIVITY_MIDDLE));
    assert!(java.ends_with(MAIN_ACTIVITY_TAIL));
    assert!(java.contains("webView.loadUrl(\"file:///android_asset/web/index.html\");"));
    let manifest = manifest_xml("Demo");
    assert!(manifest.contains("android:label=\"Demo\""));
    assert_eq!(
        strings_xml("Demo"),
        "<?xml version=\"1.0\" encoding=\"utf-8\"?>\n<resources>\n    <string name=\"app_name\">Demo</string>\n</resources>\n"
    );
    assert_eq!(
        local_properties("C:\\Android\\sdk"),
        "## This file is automatically generated by Nefu.\n# Do not modify this file.\n#\nsdk.dir=C:/Android/sdk\n"
    );
}

#[test]
fn override_text_and_optional_fields() {
    let mut c = NefuConfig::default();
    assert_eq!(apply_config_override(&mut c, "output=demo"), OverrideOutcome::Applied);
    assert_eq!(c.output, "demo");
    assert_eq!(apply_config_override(&mut c, "title=A=B"), OverrideOutcome::Applied);
    assert_eq!(c.title, Some("A=B".to_string()));
    assert_eq!(apply_config_override(&mut c, "entry="), OverrideOutcome::Applied);
    assert_eq!(c.entry, "");
}

#[test]
fn override_flags_fall_back_to_their_defaults() {
    let mut c = NefuConfig::default();
    assert_eq!(apply_config_override(&mut c, "debug=true"), OverrideOutcome::Applied);
    assert!(c.debug);
    assert_eq!(apply_config_override(&mut c, "debug=yes"), OverrideOutcome::Applied);
    assert!(!c.debug);
    assert_eq!(apply_config_override(&mut c, "resizable=false"), OverrideOutcome::Applied);
    assert!(!c.resizable);
    assert_eq!(apply_config_override(&mut c, "resizable=1"), OverrideOutcome::Applied);
    assert!(c.resizable);
}

#[test]
fn override_window_sizes() {
    let mut c = NefuConfig::default();
    assert_eq!(apply_config_override(&mut c, "window_width=1280"), OverrideOutcome::Applied);
    assert_eq!(c.window_width, 1280);
    assert_eq!(apply_config_override(&mut c, "window_width=+640"), OverrideOutcome::Applied);
    assert_eq!(c.window_width, 640);
    assert_eq!(apply_config_override(&mut c, "window_width=wide"), OverrideOutcome::Applied);
    assert_eq!(c.window_width, 640);
    assert_eq!(apply_config_override(&mut c, "window_height=4294967296"), OverrideOutcome::Applied);
    assert_eq!(c.window_height, 768);
    assert_eq!(apply_config_override(&mut c, "window_height=4294967295"), OverrideOutcome::Applied);
    assert_eq!(c.window_height, 4294967295);
}

#[test]
fn override_refusals_leave_the_config() {
    let mut c = NefuConfig::default();
    assert_eq!(apply_config_override(&mut c, "rendering_mode=fast"), OverrideOutcome::InvalidRenderingMode);
    assert_eq!(c.rendering_mode, "auto");
    assert_eq!(apply_config_override(&mut c, "rendering_mode=power-saving"), OverrideOutcome::Applied);
    assert_eq!(c.rendering_mode, "power-saving");
    assert_eq!(apply_config_override(&mut c, "colour=red"), OverrideOutcome::UnknownKey);
    assert_eq!(apply_config_override(&mut c, "debug"), OverrideOutcome::BadFormat);
    assert!(!c.debug);
}

#[test]
fn bundle_name_and_plist() {
    assert_eq!(app_bundle_name("MyApp"), "MyApp.app");
    let mut c = NefuConfig::default();
    c.output = "MyApp".to_string();
    c.version = "1.2.3".to_string();
    let plist = info_plist(&c);
    assert!(plist.starts_with("<?xml version=\"1.0\" encoding=\"UTF-8\"?>\n"));
    assert!(plist.contains("<key>CFBundleIdentifier</key>\n    <string>dev.nefu.myapp</string>"));
    assert!(plist.contains("<key>CFBundleExecutable</key>\n    <string>MyApp</string>"));
    assert!(plist.contains("<key>CFBundleShortVersionString</key>\n    <string>1.2.3</string>"));
    assert!(plist.ends_with("</dict>\n</plist>\n"));
}

#[test]
fn installer_script_names_title_and_files() {
    let mut c = NefuConfig::default();
    c.output = "demo".to_string();
    c.version = "0.3.0".to_string();
    let script = nsis_script(&c, "demo.exe");
    assert!(script.contains("Name \"demo\"\nOutFile \"demo_setup.exe\"\n"));
    assert!(script.contains("InstallDir \"$PROGRAMFILES64\\demo\"\n"));
    assert!(script.contains("  File \"demo.exe\"\n"));
    assert!(script.contains("\"DisplayVersion\" \"0.3.0\""));
    c.title = Some("Demo App".to_string());
    let script = nsis_script(&c, "demo.exe");
    assert!(script.contains("CreateShortcut \"$DESKTOP\\Demo App.lnk\" \"$INSTDIR\\demo.exe\""));
    assert!(script.ends_with("DeleteRegKey HKLM \"Software\\demo\"\nSectionEnd\n"));
}

#[test]
fn android_app_name_defaults_to_output() {
    assert_eq!(nefu::android::android_app_name("NefuApp", "shop"), "shop");
    assert_eq!(nefu::android::android_app_name("Shop", "shop"), "Shop");
}
