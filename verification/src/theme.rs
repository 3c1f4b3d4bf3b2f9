//! The colours of the two themes.

use vstd::prelude::*;

verus! {

/// The theme that a player picks.
#[derive(Clone, Copy, Debug, PartialEq, Eq, Structural)]
pub enum Theme {
    Nix,
    Lix,
}

/// A colour of the terminal.
#[derive(Clone, Copy, Debug, PartialEq, Eq, Structural)]
pub enum Color {
    Blue,
    Magenta,
}

/// The colours that a theme paints with.
#[derive(Clone, Copy, Debug, PartialEq, Eq, Structural)]
pub struct BaseTheme {
    /// The colour of labels and prompts.
    pub base: Color,
    /// The colour of the greeting.
    pub alt: Color,
}

/// The colours of each theme: the one is the other with its colours swapped.
pub open spec fn palette(theme: Theme) -> BaseTheme {
    match theme {
        Theme::Nix => BaseTheme { base: Color::Blue, alt: Color::Magenta },
        Theme::Lix => BaseTheme { base: Color::Magenta, alt: Color::Blue },
    }
}

impl Default for Theme {
    fn default() -> (r: Theme)
        ensures
            r == Theme::Nix,
    {
        Theme::Nix
    }
}

impl BaseTheme {
    /// The colours of a theme.
    pub fn from_theme(theme: Theme) -> (r: BaseTheme)
        ensures
            r == palette(theme),
    {
        match theme {
            Theme::Nix => BaseTheme { base: Color::Blue, alt: Color::Magenta },
            Theme::Lix => BaseTheme { base: Color::Magenta, alt: Color::Blue },
        }
    }
}

} // verus!
