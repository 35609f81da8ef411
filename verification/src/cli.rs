//! The command line: its commands and arguments as plain values, the build
//! targets and their extensions, and the checks on build arguments. Parsing
//! the command line is done by the application.

use vstd::prelude::*;
use crate::text::{chars_of, eq_str, push_str, string_from};

verus! {

/// The parsed command line.
#[derive(Debug)]
pub struct Cli {
    /// The command.
    pub command: Commands,
}

/// The commands.
#[derive(Debug)]
pub enum Commands {
    /// Start the development server.
    Start {
        port: u16,
        host: String,
        no_reload: bool,
        open: bool,
        watch_extensions: Vec<String>,
    },
    /// Build an executable or an APK.
    Build {
        target: String,
        config: Option<String>,
        installer: bool,
        output_dir: Option<String>,
        no_compress: bool,
        no_encrypt: bool,
        verbose: bool,
        app_name: String,
        config_overrides: Vec<String>,
        apk: bool,
        release: bool,
    },
    /// Compile C/C++ sources.
    Cpp { source: String, output: Option<String>, options: Vec<String> },
    /// Create a project.
    Init,
    /// Show the version.
    Version,
    /// Run a configured script.
    Run { name: String, args: Vec<String> },
}

/// Arguments of a build.
#[derive(Debug)]
pub struct BuildArgs {
    /// Target format.
    pub target: String,
    /// Configuration file.
    pub config: Option<String>,
    /// Also make an installer.
    pub installer: bool,
    /// Output directory.
    pub output_dir: Option<String>,
    /// Do not compress resources.
    pub no_compress: bool,
    /// Do not encrypt resources.
    pub no_encrypt: bool,
    /// Verbose output.
    pub verbose: bool,
}

/// Arguments of the development server.
#[derive(Debug)]
pub struct StartArgs {
    /// Port.
    pub port: u16,
    /// Bind address.
    pub host: String,
    /// No hot reload.
    pub no_reload: bool,
    /// Open the browser.
    pub open: bool,
    /// More extensions to watch.
    pub watch_extensions: Vec<String>,
}

/// The supported build targets.
pub open spec fn is_target(t: Seq<char>) -> bool {
    t == "exe"@ || t == "app"@ || t == "bin"@ || t == ".apk"@
}

/// The message for an unsupported target.
pub open spec fn unsupported_target_message(t: Seq<char>) -> Seq<char> {
    "unsupported target platform '"@ + t + "'. Supported formats: exe, app, bin, .apk"@
}

/// Accepts `exe`, `app`, `bin` and `.apk`; any other target is refused with
/// a message naming it.
pub fn validate_target(target: &str) -> (r: Result<(), String>)
    ensures
        is_target(target@) ==> r is Ok,
        !is_target(target@) ==> r is Err && r->Err_0@ == unsupported_target_message(target@),
{
    let t = chars_of(target);
    if eq_str(t.as_slice(), "exe") || eq_str(t.as_slice(), "app") || eq_str(t.as_slice(), "bin")
        || eq_str(t.as_slice(), ".apk") {
        Ok(())
    } else {
        let mut m = chars_of("unsupported target platform '");
        push_str(&mut m, target);
        push_str(&mut m, "'. Supported formats: exe, app, bin, .apk");
        Err(string_from(m.as_slice()))
    }
}

/// The file extension of a target (`bin` for an unknown one).
pub open spec fn target_extension_spec(t: Seq<char>) -> Seq<char> {
    if t == "exe"@ {
        "exe"@
    } else if t == "app"@ {
        "app"@
    } else if t == ".apk"@ {
        "apk"@
    } else {
        "bin"@
    }
}

/// A supported target's file extension is the target's name without its
/// leading dot (`exe`, `app`, `bin`, `apk`); an unsupported one gets `bin`.
pub proof fn law_target_extension(t: Seq<char>)
    ensures
        is_target(t) ==> target_extension_spec(t) == (if t.len() > 0 && t[0] == '.' {
            t.skip(1)
        } else {
            t
        }),
        !is_target(t) ==> target_extension_spec(t) == "bin"@,
{
    reveal_strlit("exe");
    reveal_strlit("app");
    reveal_strlit("bin");
    reveal_strlit(".apk");
    reveal_strlit("apk");
    assert("exe"@.len() == 3 && "exe"@[0] == 'e' && "exe"@[1] == 'x' && "exe"@[2] == 'e');
    assert("app"@.len() == 3 && "app"@[0] == 'a' && "app"@[1] == 'p' && "app"@[2] == 'p');
    assert("bin"@.len() == 3 && "bin"@[0] == 'b' && "bin"@[1] == 'i' && "bin"@[2] == 'n');
    assert(".apk"@.len() == 4 && ".apk"@[0] == '.');
    assert(".apk"@.skip(1) =~= "apk"@);
}

/// The file extension of a target.
pub fn target_extension(target: &str) -> (r: &'static str)
    ensures
        r@ == target_extension_spec(target@),
{
    let t = chars_of(target);
    if eq_str(t.as_slice(), "exe") {
        "exe"
    } else if eq_str(t.as_slice(), "app") {
        "app"
    } else if eq_str(t.as_slice(), ".apk") {
        "apk"
    } else {
        "bin"
    }
}

/// Why build arguments were refused.
#[derive(Debug)]
pub enum BuildArgsError {
    /// The target is not supported; the message.
    UnsupportedTarget(String),
    /// The configuration file does not exist; its path.
    ConfigNotFound(String),
}

/// Checks build arguments: the target first, then that a named
/// configuration file exists (`config_exists` says whether it does).
pub fn validate_build_args(args: &BuildArgs, config_exists: bool) -> (r: Result<(), BuildArgsError>)
    ensures
        !is_target(args.target@) ==> (r matches Err(BuildArgsError::UnsupportedTarget(m)) && m@
            == unsupported_target_message(args.target@)),
        is_target(args.target@) && args.config is Some && !config_exists ==> (r matches Err(
            BuildArgsError::ConfigNotFound(p),
        ) && p@ == args.config->0@),
        is_target(args.target@) && (args.config is None || config_exists) ==> r is Ok,
{
    match validate_target(args.target.as_str()) {
        Ok(()) => {},
        Err(m) => return Err(BuildArgsError::UnsupportedTarget(m)),
    }
    if let Some(p) = &args.config {
        if !config_exists {
            return Err(BuildArgsError::ConfigNotFound(p.clone()));
        }
    }
    Ok(())
}

} // verus!
