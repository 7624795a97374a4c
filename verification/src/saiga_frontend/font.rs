use vstd::prelude::*;

verus! {

/// A font: family, weight, stretch and style.
#[derive(Debug, Clone, Copy, PartialEq, Eq, Hash)]
pub struct Font {
    pub family: Family,
    pub weight: Weight,
    pub stretch: Stretch,
    pub style: Style,
}

/// A font family.
#[derive(Debug, Clone, Copy, PartialEq, Eq, Hash)]
pub enum Family {
    /// The name of a font family of choice.
    Name(&'static str),
    /// The sole criterion of a monospace font is that all glyphs have the same
    /// fixed width.
    Monospace,
}

/// The weight of some text.
#[derive(Debug, Clone, Copy, PartialEq, Eq, Hash, Structural)]
pub enum Weight {
    Thin,
    ExtraLight,
    Light,
    Normal,
    Medium,
    Semibold,
    Bold,
    ExtraBold,
    Black,
}

/// The width of some text.
#[derive(Debug, Clone, Copy, PartialEq, Eq, Hash, Structural)]
pub enum Stretch {
    UltraCondensed,
    ExtraCondensed,
    Condensed,
    SemiCondensed,
    Normal,
    SemiExpanded,
    Expanded,
    ExtraExpanded,
    UltraExpanded,
}

/// The style of some text.
#[derive(Debug, Clone, Copy, PartialEq, Eq, Hash, Structural)]
pub enum Style {
    Normal,
    Italic,
    Oblique,
}

impl Default for Family {
    fn default() -> (r: Family)
        ensures
            r == Family::Monospace,
    {
        Family::Monospace
    }
}

impl Default for Weight {
    fn default() -> (r: Weight)
        ensures
            r == Weight::Normal,
    {
        Weight::Normal
    }
}

impl Default for Stretch {
    fn default() -> (r: Stretch)
        ensures
            r == Stretch::Normal,
    {
        Stretch::Normal
    }
}

impl Default for Style {
    fn default() -> (r: Style)
        ensures
            r == Style::Normal,
    {
        Style::Normal
    }
}

/// A monospaced font of normal weight, stretch and style.
pub open spec fn spec_default_font() -> Font {
    Font {
        family: Family::Monospace,
        weight: Weight::Normal,
        stretch: Stretch::Normal,
        style: Style::Normal,
    }
}

impl Default for Font {
    fn default() -> (r: Font)
        ensures
            r == spec_default_font(),
    {
        Font::monospace()
    }
}

impl Font {
    /// A monospaced font with normal weight.
    pub fn monospace() -> (r: Font)
        ensures
            r == spec_default_font(),
    {
        Font {
            family: Family::Monospace,
            weight: Weight::Normal,
            stretch: Stretch::Normal,
            style: Style::Normal,
        }
    }

    /// The font family `name` with normal weight, stretch and style.
    pub fn with_name(name: &'static str) -> (r: Font)
        ensures
            r == (Font { family: Family::Name(name), ..spec_default_font() }),
    {
        Font { family: Family::Name(name), ..Font::monospace() }
    }
}

} // verus!
