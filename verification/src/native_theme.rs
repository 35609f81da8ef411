//! Theme source (system, light, dark) and the dark-colors decision. The
//! system's own preference, and the listeners notified of a change, are
//! handled by the application.

use vstd::prelude::*;

verus! {

/// Where the theme comes from.
#[derive(Debug, Clone, Copy, PartialEq, Eq, Structural)]
pub enum ThemeSource {
    /// Follow the system.
    System,
    /// Light theme.
    Light,
    /// Dark theme.
    Dark,
}

/// The stored number of a theme source.
pub open spec fn source_code(s: ThemeSource) -> u8 {
    match s {
        ThemeSource::System => 0,
        ThemeSource::Light => 1,
        ThemeSource::Dark => 2,
    }
}

/// The theme source of a stored number (any other number is `System`).
pub open spec fn source_of_code(v: u8) -> ThemeSource {
    if v == 1 {
        ThemeSource::Light
    } else if v == 2 {
        ThemeSource::Dark
    } else {
        ThemeSource::System
    }
}

impl ThemeSource {
    /// The stored number.
    pub fn as_u8(&self) -> (r: u8)
        ensures
            r == source_code(*self),
    {
        match self {
            ThemeSource::System => 0,
            ThemeSource::Light => 1,
            ThemeSource::Dark => 2,
        }
    }

    /// The theme source of a stored number.
    pub fn from_u8(v: u8) -> (r: ThemeSource)
        ensures
            r == source_of_code(v),
    {
        match v {
            1 => ThemeSource::Light,
            2 => ThemeSource::Dark,
            _ => ThemeSource::System,
        }
    }
}

/// Reading back the stored number of a source gives the source.
pub proof fn law_source_code_roundtrip(s: ThemeSource)
    ensures
        source_of_code(source_code(s)) == s,
{
}

/// The theme source setting, stored as its number.
#[derive(Debug)]
pub struct NativeTheme {
    theme_source: u8,
}

impl NativeTheme {
    /// The theme source.
    pub closed spec fn source(&self) -> ThemeSource {
        source_of_code(self.theme_source)
    }

    /// Follows the system.
    pub fn new() -> (r: NativeTheme)
        ensures
            r.source() == ThemeSource::System,
    {
        NativeTheme { theme_source: ThemeSource::System.as_u8() }
    }

    /// Dark colors: always for `Dark`, never for `Light`, and for `System`
    /// what the system prefers (`system_dark`).
    pub fn should_use_dark_colors(&self, system_dark: bool) -> (r: bool)
        ensures
            r == match self.source() {
                ThemeSource::Dark => true,
                ThemeSource::Light => false,
                ThemeSource::System => system_dark,
            },
    {
        match self.theme_source() {
            ThemeSource::Dark => true,
            ThemeSource::Light => false,
            ThemeSource::System => system_dark,
        }
    }

    /// The theme source.
    pub fn theme_source(&self) -> (r: ThemeSource)
        ensures
            r == self.source(),
    {
        ThemeSource::from_u8(self.theme_source)
    }

    /// Sets the theme source. The answer says whether the listeners are to
    /// be notified: only where the source changed.
    pub fn set_theme_source(&mut self, source: ThemeSource) -> (r: Result<bool, ()>)
        ensures
            final(self).source() == source,
            r == Ok::<bool, ()>(old(self).source() != source),
    {
        let old_code = self.theme_source;
        self.theme_source = source.as_u8();
        proof {
            assert(source_code(source_of_code(old_code)) == old_code || old_code > 2);
        }
        Ok(ThemeSource::from_u8(old_code) != source)
    }
}

} // verus!
