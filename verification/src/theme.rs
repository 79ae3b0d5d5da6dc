//! Themes as the picker sees them.
use vstd::prelude::*;

verus! {

/// One theme of the catalogue, as it stands in a list.
///
/// `rank` is the theme's place when all themes are sorted. Two entries stand for the same
/// theme exactly when their ranks are equal.
#[derive(Debug)]
pub struct ThemeEntry {
    pub rank: usize,
    pub name: String,
    pub is_light: bool,
}

/// What a [`ThemeEntry`] stands for.
pub struct ThemeView {
    pub rank: int,
    pub name: Seq<char>,
    pub is_light: bool,
}

impl View for ThemeEntry {
    type V = ThemeView;

    open spec fn view(&self) -> ThemeView {
        ThemeView { rank: self.rank as int, name: self.name@, is_light: self.is_light }
    }
}

impl Clone for ThemeEntry {
    fn clone(&self) -> (copy: Self)
        ensures
            copy@ == self@,
    {
        ThemeEntry { rank: self.rank, name: self.name.clone(), is_light: self.is_light }
    }
}

/// The themes of a list, in order.
pub open spec fn themes(list: Seq<ThemeEntry>) -> Seq<ThemeView> {
    list.map_values(|entry: ThemeEntry| entry@)
}

/// A colour by its red, green and blue parts.
#[derive(Debug, Clone, Copy, PartialEq, Eq, Structural)]
pub struct Rgb {
    pub r: u8,
    pub g: u8,
    pub b: u8,
}

/// The named colours of a theme in one brightness.
#[derive(Debug, Clone, Copy)]
pub struct Shades {
    pub black: Rgb,
    pub red: Rgb,
    pub green: Rgb,
    pub yellow: Rgb,
    pub blue: Rgb,
    pub magenta: Rgb,
    pub cyan: Rgb,
    pub white: Rgb,
    pub orange: Rgb,
    pub pink: Rgb,
}

/// A background together with the foreground that goes on it.
#[derive(Debug, Clone, Copy)]
pub struct Pair {
    pub bg: Rgb,
    pub fg: Rgb,
}

/// The colours that mark changes in a text.
#[derive(Debug, Clone, Copy)]
pub struct DiffColors {
    pub added: Rgb,
    pub deleted: Rgb,
    pub changed: Rgb,
    pub text: Rgb,
}

/// All colours of a theme.
#[derive(Debug, Clone, Copy)]
pub struct Palette {
    pub comment: Rgb,
    pub base: Shades,
    pub bright: Shades,
    pub dim: Shades,
    pub fg: [Rgb; 4],
    pub bg: [Rgb; 5],
    pub cursor: Pair,
    pub selection: Pair,
    pub diff: DiffColors,
}

/// A theme with its colours, ready to be shown.
#[derive(Debug)]
pub struct Theme {
    pub name: String,
    /// The colour behind everything.
    pub background: Rgb,
    pub colors: Palette,
}

} // verus!
