//! Application facts: its description, login item settings, and the
//! country code of a locale.

use vstd::prelude::*;
use crate::text::{chars_of, owned, split_char, split_spec, string_from, views};

verus! {

/// The application's description.
#[derive(Debug)]
pub struct AppInfo {
    pub name: String,
    pub version: String,
    pub is_packaged: bool,
    pub app_path: String,
    pub platform: String,
    pub arch: String,
    pub nefu_version: String,
}

/// Login item settings.
#[derive(Debug)]
pub struct LoginItemSettings {
    /// Start at login.
    pub open_at_login: bool,
    /// Start hidden.
    pub open_as_hidden: bool,
    /// Restore the previous session.
    pub restore_previous_session: bool,
    /// Launch path.
    pub path: Option<String>,
    /// Launch arguments.
    pub args: Vec<String>,
}

/// The country code of a locale such as `zh-CN`: its second `-`-separated
/// part, `US` where it has none.
pub open spec fn country_code_spec(locale: Seq<char>) -> Seq<char> {
    if split_spec(locale, '-').len() > 1 {
        split_spec(locale, '-')[1]
    } else {
        "US"@
    }
}

/// The country code of the given locale.
pub fn get_locale_country_code(locale: &str) -> (r: String)
    ensures
        r@ == country_code_spec(locale@),
{
    let v = chars_of(locale);
    let parts = split_char(v.as_slice(), '-');
    if parts.len() > 1 {
        assert(views(parts@)[1] == parts@[1]@);
        string_from(parts[1].as_slice())
    } else {
        owned("US")
    }
}

/// The directories a page can ask for by name.
#[derive(Debug, Clone, Copy, PartialEq, Eq, Structural)]
pub enum PathKind {
    Home,
    AppData,
    UserData,
    SessionData,
    Temp,
    Exe,
    Module,
    Desktop,
    Documents,
    Downloads,
    Music,
    Pictures,
    Videos,
    Recent,
    Logs,
    CrashDumps,
}

/// The directory a name asks for.
pub open spec fn path_kind_spec(name: Seq<char>) -> Option<PathKind> {
    if name == "home"@ {
        Some(PathKind::Home)
    } else if name == "appData"@ {
        Some(PathKind::AppData)
    } else if name == "userData"@ {
        Some(PathKind::UserData)
    } else if name == "sessionData"@ {
        Some(PathKind::SessionData)
    } else if name == "temp"@ {
        Some(PathKind::Temp)
    } else if name == "exe"@ {
        Some(PathKind::Exe)
    } else if name == "module"@ {
        Some(PathKind::Module)
    } else if name == "desktop"@ {
        Some(PathKind::Desktop)
    } else if name == "documents"@ {
        Some(PathKind::Documents)
    } else if name == "downloads"@ {
        Some(PathKind::Downloads)
    } else if name == "music"@ {
        Some(PathKind::Music)
    } else if name == "pictures"@ {
        Some(PathKind::Pictures)
    } else if name == "videos"@ {
        Some(PathKind::Videos)
    } else if name == "recent"@ {
        Some(PathKind::Recent)
    } else if name == "logs"@ {
        Some(PathKind::Logs)
    } else if name == "crashDumps"@ {
        Some(PathKind::CrashDumps)
    } else {
        None
    }
}

/// The directory a name asks for, or the message for an unknown name.
pub fn path_kind(name: &str) -> (r: Result<PathKind, String>)
    ensures
        match path_kind_spec(name@) {
            Some(k) => r == Ok::<PathKind, String>(k),
            None => r matches Err(m) && m@ == "unknown path name: "@ + name@,
        },
{
    let v = chars_of(name);
    let n = v.as_slice();
    if crate::text::eq_str(n, "home") {
        Ok(PathKind::Home)
    } else if crate::text::eq_str(n, "appData") {
        Ok(PathKind::AppData)
    } else if crate::text::eq_str(n, "userData") {
        Ok(PathKind::UserData)
    } else if crate::text::eq_str(n, "sessionData") {
        Ok(PathKind::SessionData)
    } else if crate::text::eq_str(n, "temp") {
        Ok(PathKind::Temp)
    } else if crate::text::eq_str(n, "exe") {
        Ok(PathKind::Exe)
    } else if crate::text::eq_str(n, "module") {
        Ok(PathKind::Module)
    } else if crate::text::eq_str(n, "desktop") {
        Ok(PathKind::Desktop)
    } else if crate::text::eq_str(n, "documents") {
        Ok(PathKind::Documents)
    } else if crate::text::eq_str(n, "downloads") {
        Ok(PathKind::Downloads)
    } else if crate::text::eq_str(n, "music") {
        Ok(PathKind::Music)
    } else if crate::text::eq_str(n, "pictures") {
        Ok(PathKind::Pictures)
    } else if crate::text::eq_str(n, "videos") {
        Ok(PathKind::Videos)
    } else if crate::text::eq_str(n, "recent") {
        Ok(PathKind::Recent)
    } else if crate::text::eq_str(n, "logs") {
        Ok(PathKind::Logs)
    } else if crate::text::eq_str(n, "crashDumps") {
        Ok(PathKind::CrashDumps)
    } else {
        let mut m = chars_of("unknown path name: ");
        crate::text::push_str(&mut m, name);
        Err(string_from(m.as_slice()))
    }
}

/// The directories kept under the user data directory: `nefu`, and below
/// it `session`, `logs` and `crashes`.
pub fn user_data_subdir(kind: PathKind) -> (r: Option<&'static str>)
    ensures
        r matches Some(s) ==> (s@ == (match kind {
            PathKind::SessionData => "session"@,
            PathKind::Logs => "logs"@,
            _ => "crashes"@,
        })),
        (r is Some) == (kind == PathKind::SessionData || kind == PathKind::Logs || kind == PathKind::CrashDumps),
{
    match kind {
        PathKind::SessionData => Some("session"),
        PathKind::Logs => Some("logs"),
        PathKind::CrashDumps => Some("crashes"),
        _ => None,
    }
}

} // verus!
