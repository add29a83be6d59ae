//! Visual attributes of a grid cell: colours and text modifiers.
use vstd::prelude::*;

verus! {

/// A terminal colour: the default colour, one of the sixteen named palette
/// colours, an index into the 256-colour palette, or a 24-bit RGB triple.
#[derive(Clone, Copy, Debug, PartialEq, Eq, Structural)]
pub enum Color {
    Reset,
    Black,
    Red,
    Green,
    Yellow,
    Blue,
    Magenta,
    Cyan,
    Gray,
    DarkGray,
    LightRed,
    LightGreen,
    LightYellow,
    LightBlue,
    LightMagenta,
    LightCyan,
    White,
    Rgb(u8, u8, u8),
    Indexed(u8),
}

/// The set of text modifiers a cell can carry, one flag each.
#[derive(Clone, Copy, Debug, PartialEq, Eq, Structural)]
pub struct Modifier {
    pub bold: bool,
    pub dim: bool,
    pub italic: bool,
    pub underlined: bool,
    pub reversed: bool,
    pub crossed_out: bool,
}

impl Modifier {
    /// The empty set of modifiers.
    pub open spec fn spec_empty() -> Modifier {
        Modifier {
            bold: false,
            dim: false,
            italic: false,
            underlined: false,
            reversed: false,
            crossed_out: false,
        }
    }

    /// The empty set of modifiers.
    pub fn empty() -> (r: Modifier)
        ensures
            r == Modifier::spec_empty(),
    {
        Modifier {
            bold: false,
            dim: false,
            italic: false,
            underlined: false,
            reversed: false,
            crossed_out: false,
        }
    }

    /// Whether every flag set in `other` is also set in `self`.
    pub fn contains(&self, other: &Modifier) -> (r: bool)
        ensures
            r == ((other.bold ==> self.bold) && (other.dim ==> self.dim) && (other.italic
                ==> self.italic) && (other.underlined ==> self.underlined) && (other.reversed
                ==> self.reversed) && (other.crossed_out ==> self.crossed_out)),
    {
        (!other.bold || self.bold) && (!other.dim || self.dim) && (!other.italic || self.italic)
            && (!other.underlined || self.underlined) && (!other.reversed || self.reversed) && (
        !other.crossed_out || self.crossed_out)
    }
}

/// Foreground colour, background colour and modifiers of a cell. `None`
/// for a colour means that no colour was ever selected.
#[derive(Clone, Copy, Debug, PartialEq, Eq, Structural)]
pub struct Style {
    pub fg: Option<Color>,
    pub bg: Option<Color>,
    pub modifier: Modifier,
}

/// The style of a cell that no graphic rendition has touched.
pub open spec fn default_style() -> Style {
    Style { fg: None, bg: None, modifier: Modifier::spec_empty() }
}

impl Default for Style {
    fn default() -> (r: Style)
        ensures
            r == default_style(),
    {
        Style { fg: None, bg: None, modifier: Modifier::empty() }
    }
}

impl Style {
    /// The default style.
    pub fn plain() -> (r: Style)
        ensures
            r == default_style(),
    {
        Style { fg: None, bg: None, modifier: Modifier::empty() }
    }

    /// This style with the given foreground colour.
    pub fn fg(self, c: Color) -> (r: Style)
        ensures
            r == (Style { fg: Some(c), ..self }),
    {
        Style { fg: Some(c), ..self }
    }

    /// This style with the given background colour.
    pub fn bg(self, c: Color) -> (r: Style)
        ensures
            r == (Style { bg: Some(c), ..self }),
    {
        Style { bg: Some(c), ..self }
    }

    /// This style with no foreground colour selected.
    pub fn clear_fg(self) -> (r: Style)
        ensures
            r == (Style { fg: None, ..self }),
    {
        Style { fg: None, ..self }
    }

    /// This style with no background colour selected.
    pub fn clear_bg(self) -> (r: Style)
        ensures
            r == (Style { bg: None, ..self }),
    {
        Style { bg: None, ..self }
    }

    /// This style with bold set.
    pub fn bold(self) -> (r: Style)
        ensures
            r == (Style { modifier: Modifier { bold: true, ..self.modifier }, ..self }),
    {
        Style { modifier: Modifier { bold: true, ..self.modifier }, ..self }
    }

    /// This style with bold cleared; dim is left as it was.
    pub fn not_bold(self) -> (r: Style)
        ensures
            r == (Style { modifier: Modifier { bold: false, ..self.modifier }, ..self }),
    {
        Style { modifier: Modifier { bold: false, ..self.modifier }, ..self }
    }

    /// This style with dim set.
    pub fn dim(self) -> (r: Style)
        ensures
            r == (Style { modifier: Modifier { dim: true, ..self.modifier }, ..self }),
    {
        Style { modifier: Modifier { dim: true, ..self.modifier }, ..self }
    }

    /// This style with dim cleared; bold is left as it was.
    pub fn not_dim(self) -> (r: Style)
        ensures
            r == (Style { modifier: Modifier { dim: false, ..self.modifier }, ..self }),
    {
        Style { modifier: Modifier { dim: false, ..self.modifier }, ..self }
    }

    /// This style with italic set.
    pub fn italic(self) -> (r: Style)
        ensures
            r == (Style { modifier: Modifier { italic: true, ..self.modifier }, ..self }),
    {
        Style { modifier: Modifier { italic: true, ..self.modifier }, ..self }
    }

    /// This style with italic cleared.
    pub fn not_italic(self) -> (r: Style)
        ensures
            r == (Style { modifier: Modifier { italic: false, ..self.modifier }, ..self }),
    {
        Style { modifier: Modifier { italic: false, ..self.modifier }, ..self }
    }

    /// This style with underline set.
    pub fn underlined(self) -> (r: Style)
        ensures
            r == (Style { modifier: Modifier { underlined: true, ..self.modifier }, ..self }),
    {
        Style { modifier: Modifier { underlined: true, ..self.modifier }, ..self }
    }

    /// This style with underline cleared.
    pub fn not_underlined(self) -> (r: Style)
        ensures
            r == (Style { modifier: Modifier { underlined: false, ..self.modifier }, ..self }),
    {
        Style { modifier: Modifier { underlined: false, ..self.modifier }, ..self }
    }

    /// This style with reverse video set.
    pub fn reversed(self) -> (r: Style)
        ensures
            r == (Style { modifier: Modifier { reversed: true, ..self.modifier }, ..self }),
    {
        Style { modifier: Modifier { reversed: true, ..self.modifier }, ..self }
    }

    /// This style with reverse video cleared.
    pub fn not_reversed(self) -> (r: Style)
        ensures
            r == (Style { modifier: Modifier { reversed: false, ..self.modifier }, ..self }),
    {
        Style { modifier: Modifier { reversed: false, ..self.modifier }, ..self }
    }

    /// This style with strike-through set.
    pub fn crossed_out(self) -> (r: Style)
        ensures
            r == (Style { modifier: Modifier { crossed_out: true, ..self.modifier }, ..self }),
    {
        Style { modifier: Modifier { crossed_out: true, ..self.modifier }, ..self }
    }

    /// This style with strike-through cleared.
    pub fn not_crossed_out(self) -> (r: Style)
        ensures
            r == (Style { modifier: Modifier { crossed_out: false, ..self.modifier }, ..self }),
    {
        Style { modifier: Modifier { crossed_out: false, ..self.modifier }, ..self }
    }
}

} // verus!
