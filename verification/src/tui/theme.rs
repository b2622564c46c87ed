//! Colour, kept to the names the user's terminal already defines.
//!
//! Nothing here names an RGB value: named colours resolve through the user's
//! own theme, and emphasis is carried by weight and by reversing. A background
//! is never set except by reversing, so a badge contrasts on light and dark
//! alike.
use crate::store::TurnKind;
use vstd::prelude::*;

verus! {

#[derive(Debug, Clone, Copy, PartialEq, Eq, Structural)]
pub enum Color {
    Cyan,
    Green,
    Red,
    Yellow,
    Blue,
}

/// How a run of text looks.
#[derive(Debug, Clone, Copy, PartialEq, Eq, Structural)]
pub struct Style {
    /// The terminal's own colour, unless one is named.
    pub fg: Option<Color>,
    pub bold: bool,
    pub dim: bool,
    pub italic: bool,
    pub reversed: bool,
}

impl Style {
    /// This style with another laid over it: the other's colour wins where it
    /// names one, and every emphasis of either is kept.
    pub open spec fn patched(self, over: Style) -> Style {
        Style {
            fg: if over.fg is Some {
                over.fg
            } else {
                self.fg
            },
            bold: self.bold || over.bold,
            dim: self.dim || over.dim,
            italic: self.italic || over.italic,
            reversed: self.reversed || over.reversed,
        }
    }

    pub fn patch(self, over: Style) -> (r: Style)
        ensures
            r == self.patched(over),
    {
        Style {
            fg: match over.fg {
                Some(c) => Some(c),
                None => self.fg,
            },
            bold: self.bold || over.bold,
            dim: self.dim || over.dim,
            italic: self.italic || over.italic,
            reversed: self.reversed || over.reversed,
        }
    }
}

/// A colour and whether it is bold.
pub open spec fn shade(fg: Option<Color>, bold: bool) -> Style {
    Style { fg, bold, dim: false, italic: false, reversed: false }
}

/// Ordinary text: the terminal's default wins.
pub fn plain() -> (r: Style)
    ensures
        r == shade(None, false),
{
    Style { fg: None, bold: false, dim: false, italic: false, reversed: false }
}

pub fn strong() -> (r: Style)
    ensures
        r == shade(None, true),
{
    Style { fg: None, bold: true, dim: false, italic: false, reversed: false }
}

/// Text that steps back.
pub open spec fn faint() -> Style {
    Style { fg: None, bold: false, dim: true, italic: false, reversed: false }
}

pub fn dim() -> (r: Style)
    ensures
        r == faint(),
{
    Style { fg: None, bold: false, dim: true, italic: false, reversed: false }
}

/// Words that are somebody else's.
pub open spec fn quoted() -> Style {
    Style { fg: None, bold: false, dim: true, italic: true, reversed: false }
}

pub fn quiet_italic() -> (r: Style)
    ensures
        r == quoted(),
{
    Style { fg: None, bold: false, dim: true, italic: true, reversed: false }
}

/// Used for structure, never for warnings.
pub fn accent() -> (r: Style)
    ensures
        r == shade(Some(Color::Cyan), false),
{
    Style { fg: Some(Color::Cyan), bold: false, dim: false, italic: false, reversed: false }
}

pub fn accent_strong() -> (r: Style)
    ensures
        r == shade(Some(Color::Cyan), true),
{
    Style { fg: Some(Color::Cyan), bold: true, dim: false, italic: false, reversed: false }
}

/// A label that has to be seen.
pub open spec fn label() -> Style {
    Style { fg: None, bold: true, dim: false, italic: false, reversed: true }
}

/// A label that has to be seen: the product name, the restore key.
pub fn badge() -> (r: Style)
    ensures
        r == label(),
{
    Style { fg: None, bold: true, dim: false, italic: false, reversed: true }
}

pub fn added() -> (r: Style)
    ensures
        r == shade(Some(Color::Green), false),
{
    Style { fg: Some(Color::Green), bold: false, dim: false, italic: false, reversed: false }
}

pub fn removed() -> (r: Style)
    ensures
        r == shade(Some(Color::Red), false),
{
    Style { fg: Some(Color::Red), bold: false, dim: false, italic: false, reversed: false }
}

pub fn ok() -> (r: Style)
    ensures
        r == shade(Some(Color::Green), true),
{
    Style { fg: Some(Color::Green), bold: true, dim: false, italic: false, reversed: false }
}

pub fn warn() -> (r: Style)
    ensures
        r == shade(Some(Color::Yellow), false),
{
    Style { fg: Some(Color::Yellow), bold: false, dim: false, italic: false, reversed: false }
}

pub fn danger() -> (r: Style)
    ensures
        r == shade(Some(Color::Red), true),
{
    Style { fg: Some(Color::Red), bold: true, dim: false, italic: false, reversed: false }
}

/// The hue of each kind of turn.
pub open spec fn hue(kind: TurnKind) -> Color {
    match kind {
        TurnKind::Turn => Color::Cyan,
        TurnKind::Checkpoint => Color::Yellow,
        TurnKind::Manual => Color::Blue,
    }
}

/// Each kind of turn has its own hue, so that a timeline can be read by shape.
pub fn kind(of: TurnKind) -> (r: Style)
    ensures
        r == shade(Some(hue(of)), false),
{
    let fg: Color = match of {
        TurnKind::Turn => Color::Cyan,
        TurnKind::Checkpoint => Color::Yellow,
        TurnKind::Manual => Color::Blue,
    };
    Style { fg: Some(fg), bold: false, dim: false, italic: false, reversed: false }
}

/// The bar drawn down the left of the selected row.
pub const CURSOR: &'static str = "▌";

pub const GUTTER: &'static str = " ";

pub fn cursor_style() -> (r: Style)
    ensures
        r == shade(Some(Color::Cyan), true),
{
    accent_strong()
}

} // verus!
