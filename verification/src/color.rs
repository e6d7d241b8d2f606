//! Typed colour and style: a desired foreground or background [`Color`], a
//! set of text [`Modifiers`], and the [`Style`] of a screen cell.
use vstd::prelude::*;

verus! {

/// A desired foreground *or* background colour.
///
/// In a terminal, [`Color::Default`] is the colour of text with no display
/// attributes set, so a default/default cell still produces visible text.
#[derive(Clone, Copy, Debug, Default, PartialEq, Eq, Hash, Structural)]
pub enum Color {
    /// Terminal default.
    #[default]
    Default,
    /// 4-bit BIOS colour (0..=15 by convention; the raw byte is stored).
    Bios(u8),
    /// Index into the xterm-256 palette.
    Indexed(u8),
    /// 24-bit true colour.
    Rgb(u8, u8, u8),
}

impl Color {
    /// Is this the terminal default colour?
    pub fn is_default(self) -> (r: bool)
        ensures
            r == (self is Default),
    {
        match self {
            Color::Default => true,
            _ => false,
        }
    }

    /// Is this a 4-bit BIOS colour?
    pub fn is_bios(self) -> (r: bool)
        ensures
            r == (self is Bios),
    {
        match self {
            Color::Bios(_) => true,
            _ => false,
        }
    }

    /// Is this an xterm-256 palette index?
    pub fn is_indexed(self) -> (r: bool)
        ensures
            r == (self is Indexed),
    {
        match self {
            Color::Indexed(_) => true,
            _ => false,
        }
    }

    /// Is this a 24-bit true colour?
    pub fn is_rgb(self) -> (r: bool)
        ensures
            r == (self is Rgb),
    {
        match self {
            Color::Rgb(..) => true,
            _ => false,
        }
    }
}

/// Text-style flags. `no_shadow` marks a cell that window shadows must not be
/// cast over.
#[derive(Clone, Copy, Debug, Default, PartialEq, Eq, Hash, Structural)]
pub struct Modifiers {
    pub bold: bool,
    pub italic: bool,
    pub underline: bool,
    pub blink: bool,
    pub reverse: bool,
    pub strike: bool,
    pub no_shadow: bool,
}

/// The modifier set with every flag cleared.
pub open spec fn no_modifiers() -> Modifiers {
    Modifiers {
        bold: false,
        italic: false,
        underline: false,
        blink: false,
        reverse: false,
        strike: false,
        no_shadow: false,
    }
}

/// The colour attributes of a screen cell: a foreground colour, a background
/// colour, and a set of style modifiers. The default style has both colours
/// `Default` and no modifiers.
#[derive(Clone, Copy, Debug, Default, PartialEq, Eq, Hash, Structural)]
pub struct Style {
    pub fg: Color,
    pub bg: Color,
    pub modifiers: Modifiers,
}

/// A style with the given colours and no modifiers.
pub open spec fn plain_style(fg: Color, bg: Color) -> Style {
    Style { fg, bg, modifiers: no_modifiers() }
}

/// The reversed form of `s`: the colours swapped, unless either is `Default`,
/// in which case the reverse flag is toggled instead.
pub open spec fn spec_reversed(s: Style) -> Style {
    if s.fg is Default || s.bg is Default {
        Style { modifiers: Modifiers { reverse: !s.modifiers.reverse, ..s.modifiers }, ..s }
    } else {
        Style { fg: s.bg, bg: s.fg, ..s }
    }
}

impl Style {
    /// A style with the given colours and no modifiers.
    pub fn new(fg: Color, bg: Color) -> (s: Self)
        ensures
            s == plain_style(fg, bg),
    {
        Style {
            fg,
            bg,
            modifiers: Modifiers {
                bold: false,
                italic: false,
                underline: false,
                blink: false,
                reverse: false,
                strike: false,
                no_shadow: false,
            },
        }
    }

    /// A style with explicit colours and modifiers.
    pub fn with_modifiers(fg: Color, bg: Color, modifiers: Modifiers) -> (s: Self)
        ensures
            s == (Style { fg, bg, modifiers }),
    {
        Style { fg, bg, modifiers }
    }

    /// The reverse-video form of this style.
    ///
    /// Reverse video renders inconsistently across terminals, so the colours
    /// are swapped by hand, unless either colour is `Default`: then there is
    /// nothing meaningful to swap and the reverse flag is toggled instead.
    pub fn reversed(self) -> (r: Style)
        ensures
            r == spec_reversed(self),
    {
        let mut out = self;
        if self.fg.is_default() || self.bg.is_default() {
            out.modifiers.reverse = !out.modifiers.reverse;
        } else {
            out.fg = self.bg;
            out.bg = self.fg;
        }
        out
    }
}

/// Reversing a style twice gives back the same style.
pub proof fn law_reversed_involution(s: Style)
    ensures
        spec_reversed(spec_reversed(s)) == s,
{
}

} // verus!
