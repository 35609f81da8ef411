//! Project configuration (`main.nefu`): defaults, validation, exclusion
//! patterns and the default configuration file.

use vstd::prelude::*;
use crate::text::{
    all_whitespace, chars_of, is_alphanumeric, is_blank, owned, push_str, split_char, split_spec,
    string_from, unicode_alphanumeric,
};
use crate::glob::{glob_match, glob_spec};

verus! {

/// The version of this tool.
pub const VERSION: &'static str = "0.1.0";

/// Project configuration; every field that a file leaves out takes its default.
#[derive(Debug, Clone)]
pub struct NefuConfig {
    /// Entry HTML file, relative to the project root.
    pub entry: String,
    /// Output executable name, without extension.
    pub output: String,
    /// Application description.
    pub description: String,
    /// Application version.
    pub version: String,
    /// Author.
    pub author: String,
    /// Debug mode (developer tools, console output).
    pub debug: bool,
    /// Preload script run before the page.
    pub preload: Option<String>,
    /// Window width in pixels.
    pub window_width: u32,
    /// Window height in pixels.
    pub window_height: u32,
    /// Minimum window width.
    pub min_width: Option<u32>,
    /// Minimum window height.
    pub min_height: Option<u32>,
    /// Maximum window width.
    pub max_width: Option<u32>,
    /// Maximum window height.
    pub max_height: Option<u32>,
    /// Start fullscreen.
    pub fullscreen: bool,
    /// Resizable window.
    pub resizable: bool,
    /// Window decorations (title bar, borders).
    pub decorations: bool,
    /// Always on top.
    pub always_on_top: bool,
    /// User-Agent string.
    pub user_agent: String,
    /// Application icon.
    pub icon: Option<String>,
    /// Window title (defaults to the output name).
    pub title: Option<String>,
    /// Transparent window.
    pub transparent: Option<bool>,
    /// System tray icon.
    pub tray_icon: Option<String>,
    /// Allowed domains of the security policy.
    pub allowed_domains: Vec<String>,
    /// Additional HTTP response headers, as (name, value) pairs.
    pub headers: Vec<(String, String)>,
    /// Glob patterns excluded from the build.
    pub exclude: Vec<String>,
    /// Environment variables, as (name, value) pairs.
    pub env: Vec<(String, String)>,
    /// Content Security Policy.
    pub csp: Option<String>,
    /// Context menu enabled.
    pub context_menu: bool,
    /// File drag and drop allowed.
    pub drag_drop: bool,
    /// Custom protocol name.
    pub protocol: String,
    /// Update check URL.
    pub update_url: Option<String>,
    /// Single instance lock.
    pub single_instance: bool,
    /// Window state persistence.
    pub persist_window_state: bool,
    /// Rendering mode: auto, high-performance, power-saving.
    pub rendering_mode: String,
    /// Render optimization scripts injected.
    pub render_optimization: bool,
    /// Named script commands, as (name, command) pairs.
    pub scripts: Vec<(String, String)>,
}

/// Why a configuration was refused.
#[derive(Debug)]
pub enum ConfigError {
    /// `entry` is empty or only whitespace.
    EmptyEntry,
    /// `output` holds a character other than a letter, digit, `-` or `_`.
    InvalidOutputName,
    /// `window_width` is outside 200..=7680.
    WindowWidthOutOfRange(u32),
    /// `window_height` is outside 150..=4320.
    WindowHeightOutOfRange(u32),
    /// `min_width` exceeds `max_width`.
    MinWidthAboveMax(u32, u32),
    /// `min_height` exceeds `max_height`.
    MinHeightAboveMax(u32, u32),
    /// `protocol` is empty or only whitespace.
    EmptyProtocol,
    /// `protocol` holds a character other than a letter, digit or `-`.
    InvalidProtocolName,
    /// The configuration bytes are not UTF-8.
    NotUtf8,
    /// The configuration text is not TOML.
    InvalidToml,
    /// A field has a value of the wrong type; the field's name.
    InvalidField(String),
}

// ==================== Defaults ====================

/// The default exclusion patterns.
pub open spec fn default_exclude_spec() -> Seq<Seq<char>> {
    seq![
        "dist/**"@,
        ".nefu/**"@,
        "node_modules/**"@,
        ".git/**"@,
        "target/**"@,
        "build/**"@,
        "deps/**"@,
        ".fingerprint/**"@,
        ".cargo/**"@,
        ".cargo-build-lock"@,
        ".cargo-lock"@,
        ".cargo-artifact-lock"@,
        "*.pdb"@,
        "*.o"@,
        "*.obj"@,
        "*.exe"@,
        "*.log"@,
        ".DS_Store"@,
        "Thumbs.db"@,
        "__pycache__/**"@,
        ".idea/**"@,
        ".vscode/**"@,
    ]
}

/// The character sequences of a list of strings.
pub open spec fn string_views(v: Seq<String>) -> Seq<Seq<char>> {
    v.map_values(|s: String| s@)
}

/// Default entry file.
pub fn default_entry() -> (r: String)
    ensures
        r@ == "index.html"@,
{
    owned("index.html")
}

/// Default output name.
pub fn default_output() -> (r: String)
    ensures
        r@ == "myapp"@,
{
    owned("myapp")
}

/// Default description.
pub fn default_description() -> (r: String)
    ensures
        r@ == "Nefu App"@,
{
    owned("Nefu App")
}

/// Default version.
pub fn default_version() -> (r: String)
    ensures
        r@ == "1.0.0"@,
{
    owned("1.0.0")
}

/// Default window width.
pub fn default_window_width() -> (r: u32)
    ensures
        r == 1024,
{
    1024
}

/// Default window height.
pub fn default_window_height() -> (r: u32)
    ensures
        r == 768,
{
    768
}

/// Default of the flags that are on unless turned off.
pub fn default_true() -> (r: bool)
    ensures
        r,
{
    true
}

/// Default rendering mode.
pub fn default_rendering_mode() -> (r: String)
    ensures
        r@ == "auto"@,
{
    owned("auto")
}

/// Default User-Agent: `nefu/` and the version.
pub fn default_user_agent() -> (r: String)
    ensures
        r@ == "nefu/"@ + VERSION@,
{
    let mut v = chars_of("nefu/");
    push_str(&mut v, VERSION);
    string_from(v.as_slice())
}

/// Default protocol name.
pub fn default_protocol() -> (r: String)
    ensures
        r@ == "nefu"@,
{
    owned("nefu")
}

/// Appends the pattern `s` to `v`.
fn push_pattern(v: &mut Vec<String>, s: &str)
    ensures
        string_views(final(v)@) == string_views(old(v)@).push(s@),
{
    let ghost before = v@;
    v.push(owned(s));
    assert(string_views(v@) =~= string_views(before).push(s@));
}

/// Default exclusion patterns: build outputs, caches, logs and system files.
pub fn default_exclude() -> (r: Vec<String>)
    ensures
        string_views(r@) == default_exclude_spec(),
{
    let mut v: Vec<String> = Vec::new();
    push_pattern(&mut v, "dist/**");
    push_pattern(&mut v, ".nefu/**");
    push_pattern(&mut v, "node_modules/**");
    push_pattern(&mut v, ".git/**");
    push_pattern(&mut v, "target/**");
    push_pattern(&mut v, "build/**");
    push_pattern(&mut v, "deps/**");
    push_pattern(&mut v, ".fingerprint/**");
    push_pattern(&mut v, ".cargo/**");
    push_pattern(&mut v, ".cargo-build-lock");
    push_pattern(&mut v, ".cargo-lock");
    push_pattern(&mut v, ".cargo-artifact-lock");
    push_pattern(&mut v, "*.pdb");
    push_pattern(&mut v, "*.o");
    push_pattern(&mut v, "*.obj");
    push_pattern(&mut v, "*.exe");
    push_pattern(&mut v, "*.log");
    push_pattern(&mut v, ".DS_Store");
    push_pattern(&mut v, "Thumbs.db");
    push_pattern(&mut v, "__pycache__/**");
    push_pattern(&mut v, ".idea/**");
    push_pattern(&mut v, ".vscode/**");
    assert(string_views(v@) =~= default_exclude_spec());
    v
}

/// The configuration that a file with no fields gives.
pub open spec fn is_default_config(c: NefuConfig) -> bool {
    &&& c.entry@ == "index.html"@
    &&& c.output@ == "myapp"@
    &&& c.description@ == "Nefu App"@
    &&& c.version@ == "1.0.0"@
    &&& c.author@ == Seq::<char>::empty()
    &&& !c.debug
    &&& c.preload is None
    &&& c.window_width == 1024
    &&& c.window_height == 768
    &&& c.min_width is None
    &&& c.min_height is None
    &&& c.max_width is None
    &&& c.max_height is None
    &&& !c.fullscreen
    &&& c.resizable
    &&& c.decorations
    &&& !c.always_on_top
    &&& c.user_agent@ == "nefu/"@ + VERSION@
    &&& c.icon is None
    &&& c.title is None
    &&& c.transparent is None
    &&& c.tray_icon is None
    &&& c.allowed_domains@.len() == 0
    &&& c.headers@.len() == 0
    &&& string_views(c.exclude@) == default_exclude_spec()
    &&& c.env@.len() == 0
    &&& c.csp is None
    &&& c.context_menu
    &&& !c.drag_drop
    &&& c.protocol@ == "nefu"@
    &&& c.update_url is None
    &&& !c.single_instance
    &&& c.persist_window_state
    &&& c.rendering_mode@ == "auto"@
    &&& c.render_optimization
    &&& c.scripts@.len() == 0
}

impl Default for NefuConfig {
    fn default() -> (r: Self)
        ensures
            is_default_config(r),
    {
        NefuConfig {
            entry: default_entry(),
            output: default_output(),
            description: default_description(),
            version: default_version(),
            author: String::new(),
            debug: false,
            preload: None,
            window_width: default_window_width(),
            window_height: default_window_height(),
            min_width: None,
            min_height: None,
            max_width: None,
            max_height: None,
            fullscreen: false,
            resizable: true,
            decorations: true,
            always_on_top: false,
            user_agent: default_user_agent(),
            icon: None,
            title: None,
            transparent: None,
            tray_icon: None,
            allowed_domains: Vec::new(),
            headers: Vec::new(),
            exclude: default_exclude(),
            env: Vec::new(),
            csp: None,
            context_menu: true,
            drag_drop: false,
            protocol: default_protocol(),
            update_url: None,
            single_instance: false,
            persist_window_state: true,
            rendering_mode: default_rendering_mode(),
            render_optimization: true,
            scripts: Vec::new(),
        }
    }
}

// ==================== Validation ====================

/// Every character of an output name is a letter, digit, `-` or `_`.
pub open spec fn valid_output_name(s: Seq<char>) -> bool {
    forall|i: int|
        0 <= i < s.len() ==> unicode_alphanumeric(#[trigger] s[i]) || s[i] == '-' || s[i] == '_'
}

/// Every character of a protocol name is a letter, digit or `-`.
pub open spec fn valid_protocol_name(s: Seq<char>) -> bool {
    forall|i: int| 0 <= i < s.len() ==> unicode_alphanumeric(#[trigger] s[i]) || s[i] == '-'
}

/// What `validate` answers: the first check that fails, in the order
/// entry, output name, width, height, width bounds, height bounds,
/// protocol emptiness, protocol characters.
pub open spec fn validate_spec(c: NefuConfig) -> Result<(), ConfigError> {
    if all_whitespace(c.entry@) {
        Err(ConfigError::EmptyEntry)
    } else if !valid_output_name(c.output@) {
        Err(ConfigError::InvalidOutputName)
    } else if c.window_width < 200 || c.window_width > 7680 {
        Err(ConfigError::WindowWidthOutOfRange(c.window_width))
    } else if c.window_height < 150 || c.window_height > 4320 {
        Err(ConfigError::WindowHeightOutOfRange(c.window_height))
    } else if c.min_width is Some && c.max_width is Some && c.min_width->0 > c.max_width->0 {
        Err(ConfigError::MinWidthAboveMax(c.min_width->0, c.max_width->0))
    } else if c.min_height is Some && c.max_height is Some && c.min_height->0 > c.max_height->0 {
        Err(ConfigError::MinHeightAboveMax(c.min_height->0, c.max_height->0))
    } else if all_whitespace(c.protocol@) {
        Err(ConfigError::EmptyProtocol)
    } else if !valid_protocol_name(c.protocol@) {
        Err(ConfigError::InvalidProtocolName)
    } else {
        Ok(())
    }
}

/// A configuration passes validation exactly when its entry is not blank,
/// its output name and protocol name are valid (the protocol not blank),
/// its window is 200 to 7680 pixels wide and 150 to 4320 high, and no
/// minimum size exceeds its maximum. A configuration that fails names the
/// first rule it breaks, in that order: a bad width is reported only for an
/// entry and output that pass.
pub proof fn law_validation_rules(c: NefuConfig)
    ensures
        validate_spec(c) is Ok <==> {
            &&& !all_whitespace(c.entry@)
            &&& valid_output_name(c.output@)
            &&& 200 <= c.window_width <= 7680
            &&& 150 <= c.window_height <= 4320
            &&& (c.min_width is Some && c.max_width is Some ==> c.min_width->0 <= c.max_width->0)
            &&& (c.min_height is Some && c.max_height is Some ==> c.min_height->0 <= c.max_height->0)
            &&& !all_whitespace(c.protocol@)
            &&& valid_protocol_name(c.protocol@)
        },
        !all_whitespace(c.entry@) && valid_output_name(c.output@) && !(200 <= c.window_width <= 7680)
            ==> validate_spec(c) == Err::<(), ConfigError>(ConfigError::WindowWidthOutOfRange(c.window_width)),
        all_whitespace(c.entry@) ==> validate_spec(c) == Err::<(), ConfigError>(ConfigError::EmptyEntry),
{
}

fn check_output_name(s: &[char]) -> (r: bool)
    ensures
        r == valid_output_name(s@),
{
    let mut i: usize = 0;
    while i < s.len()
        invariant
            0 <= i <= s@.len(),
            forall|j: int|
                0 <= j < i ==> unicode_alphanumeric(#[trigger] s@[j]) || s@[j] == '-' || s@[j]
                    == '_',
        decreases s@.len() - i,
    {
        let c = s[i];
        if !(is_alphanumeric(c) || c == '-' || c == '_') {
            return false;
        }
        i = i + 1;
    }
    true
}

fn check_protocol_name(s: &[char]) -> (r: bool)
    ensures
        r == valid_protocol_name(s@),
{
    let mut i: usize = 0;
    while i < s.len()
        invariant
            0 <= i <= s@.len(),
            forall|j: int| 0 <= j < i ==> unicode_alphanumeric(#[trigger] s@[j]) || s@[j] == '-',
        decreases s@.len() - i,
    {
        let c = s[i];
        if !(is_alphanumeric(c) || c == '-') {
            return false;
        }
        i = i + 1;
    }
    true
}

impl NefuConfig {
    /// Checks that the fields are within their ranges; the first failing
    /// check is the error.
    pub fn validate(&self) -> (r: Result<(), ConfigError>)
        ensures
            r == validate_spec(*self),
    {
        let entry = chars_of(self.entry.as_str());
        if is_blank(entry.as_slice()) {
            return Err(ConfigError::EmptyEntry);
        }
        let output = chars_of(self.output.as_str());
        if !check_output_name(output.as_slice()) {
            return Err(ConfigError::InvalidOutputName);
        }
        if self.window_width < 200 || self.window_width > 7680 {
            return Err(ConfigError::WindowWidthOutOfRange(self.window_width));
        }
        if self.window_height < 150 || self.window_height > 4320 {
            return Err(ConfigError::WindowHeightOutOfRange(self.window_height));
        }
        if let (Some(min_w), Some(max_w)) = (self.min_width, self.max_width) {
            if min_w > max_w {
                return Err(ConfigError::MinWidthAboveMax(min_w, max_w));
            }
        }
        if let (Some(min_h), Some(max_h)) = (self.min_height, self.max_height) {
            if min_h > max_h {
                return Err(ConfigError::MinHeightAboveMax(min_h, max_h));
            }
        }
        let protocol = chars_of(self.protocol.as_str());
        if is_blank(protocol.as_slice()) {
            return Err(ConfigError::EmptyProtocol);
        }
        if !check_protocol_name(protocol.as_slice()) {
            return Err(ConfigError::InvalidProtocolName);
        }
        Ok(())
    }

    /// The window title: the custom title, else the output name.
    pub fn get_title(&self) -> (r: String)
        ensures
            r@ == (match self.title {
                Some(t) => t@,
                None => self.output@,
            }),
    {
        match &self.title {
            Some(t) => t.clone(),
            None => self.output.clone(),
        }
    }

    /// The entry file's path under `project_dir`.
    pub fn entry_path(&self, project_dir: &str) -> (r: String)
        ensures
            r@ == path_join_spec(project_dir@, self.entry@),
    {
        join_path(project_dir, self.entry.as_str())
    }

    /// The icon's path under `project_dir`, where an icon is set.
    pub fn icon_path(&self, project_dir: &str) -> (r: Option<String>)
        ensures
            match self.icon {
                Some(i) => r is Some && r->0@ == path_join_spec(project_dir@, i@),
                None => r is None,
            },
    {
        match &self.icon {
            Some(i) => Some(join_path(project_dir, i.as_str())),
            None => None,
        }
    }

    /// The preload script's path under `project_dir`, where one is set.
    pub fn preload_path(&self, project_dir: &str) -> (r: Option<String>)
        ensures
            match self.preload {
                Some(p) => r is Some && r->0@ == path_join_spec(project_dir@, p@),
                None => r is None,
            },
    {
        match &self.preload {
            Some(p) => Some(join_path(project_dir, p.as_str())),
            None => None,
        }
    }

    /// Whether `file_path` matches one of the exclusion patterns.
    pub fn is_excluded(&self, file_path: &str) -> (r: bool)
        ensures
            r == exists|i: int|
                0 <= i < self.exclude@.len() && #[trigger] glob_spec(
                    self.exclude@[i]@,
                    file_path@,
                ),
    {
        let mut i: usize = 0;
        while i < self.exclude.len()
            invariant
                0 <= i <= self.exclude@.len(),
                forall|j: int| 0 <= j < i ==> !#[trigger] glob_spec(self.exclude@[j]@, file_path@),
            decreases self.exclude@.len() - i,
        {
            if glob_match(self.exclude[i].as_str(), file_path) {
                return true;
            }
            i = i + 1;
        }
        false
    }
}

/// `Path::join`: `rel` appended to `base` with a separator, or `rel` alone
/// where it is absolute.
pub uninterp spec fn path_join_spec(base: Seq<char>, rel: Seq<char>) -> Seq<char>;

/// `Path::new(base).join(rel)`, as text. Its exact result (separators,
/// absolute `rel`) is only named.
#[verifier::external_body]
pub(crate) fn join_path(base: &str, rel: &str) -> (r: String)
    ensures
        r@ == path_join_spec(base@, rel@),
{
    std::path::Path::new(base).join(rel).to_string_lossy().into_owned()
}

// ==================== Version numbers ====================

/// `c` is an ASCII digit.
pub open spec fn is_digit(c: char) -> bool {
    '0' <= c && c <= '9'
}

/// The number that a run of ASCII digits denotes.
pub open spec fn digits_value(d: Seq<char>) -> nat
    decreases d.len(),
{
    if d.len() == 0 {
        0
    } else {
        digits_value(d.drop_last()) * 10 + ((d.last() as nat) - ('0' as nat)) as nat
    }
}

/// `s.parse::<u32>()` succeeds: an optional `+`, then one or more ASCII
/// digits whose value fits in 32 bits.
pub open spec fn parses_as_u32(s: Seq<char>) -> bool {
    &&& unsigned_digits(s).len() > 0
    &&& forall|i: int|
        0 <= i < unsigned_digits(s).len() ==> is_digit(#[trigger] unsigned_digits(s)[i])
    &&& digits_value(unsigned_digits(s)) <= u32::MAX
}

/// `s` without one leading `+`.
pub open spec fn unsigned_digits(s: Seq<char>) -> Seq<char> {
    if s.len() > 0 && s[0] == '+' {
        s.drop_first()
    } else {
        s
    }
}

/// A version number of exactly three dot-separated parts, each a `u32`.
pub open spec fn semver_spec(v: Seq<char>) -> bool {
    let parts = split_spec(v, '.');
    parts.len() == 3 && forall|i: int| 0 <= i < 3 ==> parses_as_u32(#[trigger] parts[i])
}

proof fn lemma_digits_value_grows(d: Seq<char>, i: int)
    requires
        0 <= i <= d.len(),
        forall|j: int| 0 <= j < d.len() ==> is_digit(#[trigger] d[j]),
    ensures
        digits_value(d.subrange(0, i)) <= digits_value(d),
    decreases d.len() - i,
{
    if i < d.len() {
        lemma_digits_value_grows(d, i + 1);
        let a = d.subrange(0, i + 1);
        assert(a.drop_last() =~= d.subrange(0, i));
        assert(is_digit(a.last()));
    } else {
        assert(d.subrange(0, i) =~= d);
    }
}

/// Whether `s` parses as a `u32` (`str::parse::<u32>`).
pub fn parses_u32(s: &[char]) -> (r: bool)
    ensures
        r == parses_as_u32(s@),
{
    let start: usize = if s.len() > 0 && s[0] == '+' {
        1
    } else {
        0
    };
    let ghost d = unsigned_digits(s@);
    assert(d =~= s@.subrange(start as int, s@.len() as int));
    if start >= s.len() {
        return false;
    }
    let mut v: u64 = 0;
    let mut i = start;
    while i < s.len()
        invariant
            start <= i <= s@.len(),
            d == s@.subrange(start as int, s@.len() as int),
            d == unsigned_digits(s@),
            d.len() > 0,
            forall|j: int| 0 <= j < i - start ==> is_digit(#[trigger] d[j]),
            v == digits_value(d.subrange(0, i - start)),
            v <= u32::MAX,
        decreases s@.len() - i,
    {
        let c = s[i];
        assert(c == d[i - start]);
        if !('0' <= c && c <= '9') {
            assert(!is_digit(d[i - start]));
            assert(!(forall|j: int| 0 <= j < d.len() ==> is_digit(#[trigger] d[j])));
            return false;
        }
        let dv = (c as u64) - ('0' as u64);
        let ghost pre = d.subrange(0, i - start + 1);
        assert(pre.drop_last() =~= d.subrange(0, i - start));
        assert(pre.last() == c);
        let nv = v * 10 + dv;
        i = i + 1;
        if nv > 4294967295 {
            proof {
                assert(nv == digits_value(pre));
                if forall|j: int| 0 <= j < d.len() ==> is_digit(#[trigger] d[j]) {
                    lemma_digits_value_grows(d, i - start);
                }
            }
            return false;
        }
        v = nv;
    }
    assert(d.subrange(0, d.len() as int) =~= d);
    true
}

/// Whether `version` is `x.y.z` with three numeric parts.
pub fn is_valid_semver(version: &str) -> (r: bool)
    ensures
        r == semver_spec(version@),
{
    let v = chars_of(version);
    let parts = split_char(v.as_slice(), '.');
    if parts.len() != 3 {
        return false;
    }
    assert(split_spec(version@, '.')[0] == parts@[0]@);
    let a = parses_u32(parts[0].as_slice());
    let b = parses_u32(parts[1].as_slice());
    let c = parses_u32(parts[2].as_slice());
    assert(split_spec(version@, '.')[1] == parts@[1]@);
    assert(split_spec(version@, '.')[2] == parts@[2]@);
    a && b && c
}

// ==================== Default configuration file ====================

/// The default configuration file's text up to the project name.
pub const DEFAULT_CONFIG_HEAD: &'static str = "# Nefu project configuration file
# Docs: https://nefu.dev/docs/config

# Entry HTML file path
entry = \"index.html\"

# Output executable file name (without extension)
output = \"";

/// The text between the two occurrences of the project name.
pub const DEFAULT_CONFIG_MIDDLE: &'static str = "\"

# Application description
description = \"";

/// The text after the second occurrence of the project name.
pub const DEFAULT_CONFIG_TAIL: &'static str = " App\"

# Application version number
version = \"1.0.0\"

# Author information
author = \"\"

# Debug mode
debug = false

# Window settings
window_width = 1024
window_height = 768
fullscreen = false
resizable = true

# Custom User-Agent
user_agent = \"nefu/1.0\"
";

/// The content of a new project's configuration file, naming the output
/// and the description after `project_name`.
pub fn create_default_config(project_name: &str) -> (r: String)
    ensures
        r@ == DEFAULT_CONFIG_HEAD@ + project_name@ + DEFAULT_CONFIG_MIDDLE@ + project_name@
            + DEFAULT_CONFIG_TAIL@,
{
    let mut v = chars_of(DEFAULT_CONFIG_HEAD);
    push_str(&mut v, project_name);
    push_str(&mut v, DEFAULT_CONFIG_MIDDLE);
    push_str(&mut v, project_name);
    push_str(&mut v, DEFAULT_CONFIG_TAIL);
    string_from(v.as_slice())
}

} // verus!
