//! Colour themes.

use vstd::prelude::*;

verus! {

/// A colour theme: follow the system, or force light or dark.
#[derive(Clone, Copy, Debug, PartialEq, Eq, Structural)]
pub enum Theme {
    Auto,
    Light,
    Dark,
}

impl Theme {
    /// Whether the dark palette applies, where `system_prefers_dark` is the
    /// system's preference.
    pub fn is_dark(&self, system_prefers_dark: bool) -> (r: bool)
        ensures
            r == match *self {
                Theme::Auto => system_prefers_dark,
                Theme::Light => false,
                Theme::Dark => true,
            },
    {
        match self {
            Theme::Auto => system_prefers_dark,
            Theme::Light => false,
            Theme::Dark => true,
        }
    }

    /// The stored theme, or [`Theme::Auto`] when none could be read.
    pub fn or_auto(stored: Option<Theme>) -> (r: Theme)
        ensures
            r == match stored {
                Some(t) => t,
                None => Theme::Auto,
            },
    {
        match stored {
            Some(t) => t,
            None => Theme::Auto,
        }
    }
}

} // verus!
