//! Which palette is shown.

use crate::settings::ThemeMode;
use vstd::prelude::*;

verus! {

/// A bright or a dark palette.
#[derive(Clone, Copy, Debug, PartialEq, Eq, Structural)]
pub enum ColorScheme {
    Dark,
    Light,
}

/// The palette that was asked for, and the one that the system uses.
#[derive(Clone, Copy, Debug, PartialEq, Eq, Structural)]
pub struct Theme {
    pub mode: ThemeMode,
    pub system: ColorScheme,
}

impl Theme {
    /// The palette that is shown.
    pub open spec fn shown(self) -> ColorScheme {
        match self.mode {
            ThemeMode::Auto => self.system,
            ThemeMode::Light => ColorScheme::Light,
            ThemeMode::Dark => ColorScheme::Dark,
        }
    }

    /// A theme that follows the system, which is dark until it is known better.
    pub fn new() -> (theme: Self)
        ensures
            theme == (Theme { mode: ThemeMode::Auto, system: ColorScheme::Dark }),
    {
        Theme { mode: ThemeMode::Auto, system: ColorScheme::Dark }
    }

    /// The palette that is shown.
    pub fn scheme(&self) -> (scheme: ColorScheme)
        ensures
            scheme == self.shown(),
    {
        match self.mode {
            ThemeMode::Auto => self.system,
            ThemeMode::Light => ColorScheme::Light,
            ThemeMode::Dark => ColorScheme::Dark,
        }
    }

    /// The palette that was asked for.
    pub fn mode(&self) -> (mode: ThemeMode)
        ensures
            mode == self.mode,
    {
        self.mode
    }

    /// Asks for a palette.
    pub fn set_mode(&mut self, mode: ThemeMode)
        ensures
            *final(self) == (Theme { mode, ..*old(self) }),
    {
        self.mode = mode;
    }

    /// Takes over the settings of another theme; what the system uses stays known.
    pub fn replace_from_config(&mut self, theme: Theme)
        ensures
            *final(self) == (Theme { mode: theme.mode, ..*old(self) }),
    {
        self.mode = theme.mode;
    }

    /// Takes in which palette the system uses; whether another one is shown now.
    pub fn set_system_scheme(&mut self, scheme: ColorScheme) -> (changed: bool)
        ensures
            *final(self) == (Theme { system: scheme, ..*old(self) }),
            changed == (final(self).shown() != old(self).shown()),
    {
        let changed: bool = self.mode == ThemeMode::Auto && self.system != scheme;
        self.system = scheme;
        changed
    }

    /// The red, green and blue of the ground behind code.
    pub fn code_background(&self) -> (color: (u8, u8, u8))
        ensures
            color == (match self.shown() {
                ColorScheme::Light => (0xEEu8, 0xEEu8, 0xEEu8),
                ColorScheme::Dark => (0x26u8, 0x26u8, 0x26u8),
            }),
    {
        match self.scheme() {
            ColorScheme::Light => (0xEE, 0xEE, 0xEE),
            ColorScheme::Dark => (0x26, 0x26, 0x26),
        }
    }
}

/// A palette that was asked for by name is shown whatever the system uses.
pub proof fn law_named_palettes_ignore_the_system(theme: Theme, system: ColorScheme)
    requires
        theme.mode != ThemeMode::Auto,
    ensures
        (Theme { system, ..theme }).shown() == theme.shown(),
{
}

} // verus!
