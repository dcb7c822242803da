//! Light and dark color themes.

use vstd::prelude::*;

verus! {

/// The color theme of a scene.
#[derive(Debug, Clone, Copy, PartialEq, Eq, Structural)]
pub enum Theme {
    Light,
    Dark,
}

impl Theme {
    /// The light theme.
    pub fn light() -> (t: Theme)
        ensures
            t == Theme::Light,
    {
        Theme::Light
    }

    /// The dark theme.
    pub fn dark() -> (t: Theme)
        ensures
            t == Theme::Dark,
    {
        Theme::Dark
    }
}

impl Default for Theme {
    /// The light theme.
    fn default() -> (t: Theme)
        ensures
            t == Theme::Light,
    {
        Theme::Light
    }
}

} // verus!
