//! The Solarized Dark palette, and what the editor paints with which colour.
//!
//! The colours are Ethan Schoonover's (<https://ethanschoonover.com/solarized/>).

use vstd::prelude::*;

use crate::text::same;

verus! {

/// A colour: one of the terminal's own, or one of the palette.
#[derive(Clone, Copy, Debug, PartialEq, Eq, Structural)]
pub enum Color {
    Magenta,
    Green,
    Yellow,
    Blue,
    Cyan,
    Gray,
    DarkGray,
    LightYellow,
    LightBlue,
    Base03,
    Base02,
    Base01,
    Base0,
    Base1,
    SolarYellow,
    SolarOrange,
    SolarRed,
    SolarMagenta,
    SolarViolet,
    SolarBlue,
    SolarCyan,
    SolarGreen,
}

/// The parts of a colour of the palette: red, green, blue.
pub open spec fn parts(c: Color) -> Option<(u8, u8, u8)> {
    match c {
        Color::Base03 => Some((0x00u8, 0x2bu8, 0x36u8)),
        Color::Base02 => Some((0x07u8, 0x36u8, 0x42u8)),
        Color::Base01 => Some((0x58u8, 0x6eu8, 0x75u8)),
        Color::Base0 => Some((0x83u8, 0x94u8, 0x96u8)),
        Color::Base1 => Some((0x93u8, 0xa1u8, 0xa1u8)),
        Color::SolarYellow => Some((0xb5u8, 0x89u8, 0x00u8)),
        Color::SolarOrange => Some((0xcbu8, 0x4bu8, 0x16u8)),
        Color::SolarRed => Some((0xdcu8, 0x32u8, 0x2fu8)),
        Color::SolarMagenta => Some((0xd3u8, 0x36u8, 0x82u8)),
        Color::SolarViolet => Some((0x6cu8, 0x71u8, 0xc4u8)),
        Color::SolarBlue => Some((0x26u8, 0x8bu8, 0xd2u8)),
        Color::SolarCyan => Some((0x2au8, 0xa1u8, 0x98u8)),
        Color::SolarGreen => Some((0x85u8, 0x99u8, 0x00u8)),
        _ => None,
    }
}

impl Color {
    /// The parts of a colour of the palette; `None` for the terminal's own.
    pub fn rgb(self) -> (r: Option<(u8, u8, u8)>)
        ensures
            r == parts(self),
    {
        match self {
            Color::Base03 => Some((0x00, 0x2b, 0x36)),
            Color::Base02 => Some((0x07, 0x36, 0x42)),
            Color::Base01 => Some((0x58, 0x6e, 0x75)),
            Color::Base0 => Some((0x83, 0x94, 0x96)),
            Color::Base1 => Some((0x93, 0xa1, 0xa1)),
            Color::SolarYellow => Some((0xb5, 0x89, 0x00)),
            Color::SolarOrange => Some((0xcb, 0x4b, 0x16)),
            Color::SolarRed => Some((0xdc, 0x32, 0x2f)),
            Color::SolarMagenta => Some((0xd3, 0x36, 0x82)),
            Color::SolarViolet => Some((0x6c, 0x71, 0xc4)),
            Color::SolarBlue => Some((0x26, 0x8b, 0xd2)),
            Color::SolarCyan => Some((0x2a, 0xa1, 0x98)),
            Color::SolarGreen => Some((0x85, 0x99, 0x00)),
            _ => None,
        }
    }
}

/// How a run of text is painted. What is not said is left as it is.
#[derive(Clone, Copy, Debug, PartialEq, Eq, Structural)]
pub struct Style {
    pub fg: Option<Color>,
    pub bg: Option<Color>,
    pub bold: bool,
    pub italic: bool,
}

// --------------------------------------------------------------------- palette

/// Background.
pub const BASE03: Color = Color::Base03;

/// Highlighted background, and the status bar.
pub const BASE02: Color = Color::Base02;

/// Comments and what is secondary.
pub const BASE01: Color = Color::Base01;

/// Text.
pub const BASE0: Color = Color::Base0;

/// Emphasised text.
pub const BASE1: Color = Color::Base1;

pub const YELLOW: Color = Color::SolarYellow;

pub const ORANGE: Color = Color::SolarOrange;

pub const RED: Color = Color::SolarRed;

pub const MAGENTA: Color = Color::SolarMagenta;

pub const VIOLET: Color = Color::SolarViolet;

pub const BLUE: Color = Color::SolarBlue;

pub const CYAN: Color = Color::SolarCyan;

pub const GREEN: Color = Color::SolarGreen;

// ---------------------------------------------------------------------- styles

/// Nothing is said.
pub open spec fn unstyled() -> Style {
    Style { fg: None, bg: None, bold: false, italic: false }
}

/// A text colour.
pub open spec fn in_color(c: Color) -> Style {
    Style { fg: Some(c), ..unstyled() }
}

/// A text colour on a background.
pub open spec fn on(fg: Color, bg: Color) -> Style {
    Style { fg: Some(fg), bg: Some(bg), ..unstyled() }
}

impl Style {
    /// A style that says nothing.
    pub fn plain() -> (r: Style)
        ensures
            r == unstyled(),
    {
        Style { fg: None, bg: None, bold: false, italic: false }
    }

    /// The style with another text colour.
    pub fn with_fg(self, c: Color) -> (r: Style)
        ensures
            r == (Style { fg: Some(c), ..self }),
    {
        Style { fg: Some(c), ..self }
    }

    /// The style with another background.
    pub fn with_bg(self, c: Color) -> (r: Style)
        ensures
            r == (Style { bg: Some(c), ..self }),
    {
        Style { bg: Some(c), ..self }
    }
}

pub open spec fn editor_style() -> Style {
    on(BASE0, BASE03)
}

/// The text area.
pub fn editor() -> (r: Style)
    ensures
        r == editor_style(),
{
    Style::plain().with_bg(BASE03).with_fg(BASE0)
}

pub open spec fn gutter_style() -> Style {
    on(BASE01, BASE03)
}

/// Line numbers and change marks: dimmer than the text beside them.
pub fn gutter() -> (r: Style)
    ensures
        r == gutter_style(),
{
    Style::plain().with_bg(BASE03).with_fg(BASE01)
}

pub open spec fn bar_style() -> Style {
    Style { bold: true, ..on(BASE1, BASE02) }
}

/// The status bar.
pub fn status_bar() -> (r: Style)
    ensures
        r == bar_style(),
{
    Style { bold: true, ..Style::plain().with_bg(BASE02).with_fg(BASE1) }
}

pub open spec fn hint_style() -> Style {
    on(BASE01, BASE02)
}

/// The hints in the status bar.
pub fn status_hint() -> (r: Style)
    ensures
        r == hint_style(),
{
    Style::plain().with_bg(BASE02).with_fg(BASE01)
}

/// The file tree: on the same ground as the editor.
pub fn tree() -> (r: Style)
    ensures
        r == editor_style(),
{
    Style::plain().with_bg(BASE03).with_fg(BASE0)
}

/// The selected row of a list.
pub fn tree_selected() -> (r: Style)
    ensures
        r == bar_style(),
{
    Style { bold: true, ..Style::plain().with_bg(BASE02).with_fg(BASE1) }
}

pub open spec fn dir_style() -> Style {
    on(BLUE, BASE03)
}

/// A directory in the tree.
pub fn tree_dir() -> (r: Style)
    ensures
        r == dir_style(),
{
    Style::plain().with_bg(BASE03).with_fg(BLUE)
}

/// What is well.
pub fn ok() -> (r: Color)
    ensures
        r == GREEN,
{
    GREEN
}

/// What is not yet well.
pub fn warn() -> (r: Color)
    ensures
        r == YELLOW,
{
    YELLOW
}

/// What is wrong.
pub fn error() -> (r: Color)
    ensures
        r == RED,
{
    RED
}

/// The colour of a diagnostic, by its severity.
pub open spec fn severity_color(severity: Option<u8>) -> Color {
    match severity {
        Some(n) => if n == 1 {
            RED
        } else if n == 2 {
            YELLOW
        } else if n == 3 {
            CYAN
        } else if n == 4 {
            VIOLET
        } else {
            BASE1
        },
        None => BASE1,
    }
}

/// The colour of a diagnostic: error, warning, information, hint, or unknown.
pub fn diagnostic(severity: Option<u8>) -> (r: Color)
    ensures
        r == severity_color(severity),
{
    match severity {
        Some(1) => RED,
        Some(2) => YELLOW,
        Some(3) => CYAN,
        Some(4) => VIOLET,
        _ => BASE1,
    }
}

// ---------------------------------------------------------------------- syntax

/// The style of a kind of source text.
pub open spec fn syntax_style(capture: Seq<char>) -> Style {
    if capture == "comment"@ {
        Style { italic: true, ..in_color(BASE01) }
    } else if capture == "keyword"@ {
        Style { bold: true, ..in_color(GREEN) }
    } else if capture == "string"@ {
        in_color(CYAN)
    } else if capture == "number"@ || capture == "constant"@ {
        in_color(MAGENTA)
    } else if capture == "function"@ {
        in_color(BLUE)
    } else if capture == "type"@ {
        in_color(YELLOW)
    } else if capture == "attribute"@ {
        in_color(ORANGE)
    } else if capture == "property"@ {
        in_color(BLUE)
    } else if capture == "tag"@ || capture == "label"@ {
        in_color(RED)
    } else if capture == "punctuation"@ {
        in_color(BASE01)
    } else {
        unstyled()
    }
}

/// The style of a kind of source text, by the first part of its name.
pub fn syntax(primary_capture: &str) -> (r: Style)
    ensures
        r == syntax_style(primary_capture@),
{
    let base = Style::plain();
    if same(primary_capture, "comment") {
        Style { italic: true, ..base.with_fg(BASE01) }
    } else if same(primary_capture, "keyword") {
        Style { bold: true, ..base.with_fg(GREEN) }
    } else if same(primary_capture, "string") {
        base.with_fg(CYAN)
    } else if same(primary_capture, "number") || same(primary_capture, "constant") {
        base.with_fg(MAGENTA)
    } else if same(primary_capture, "function") {
        base.with_fg(BLUE)
    } else if same(primary_capture, "type") {
        base.with_fg(YELLOW)
    } else if same(primary_capture, "attribute") {
        base.with_fg(ORANGE)
    } else if same(primary_capture, "property") {
        base.with_fg(BLUE)
    } else if same(primary_capture, "tag") || same(primary_capture, "label") {
        base.with_fg(RED)
    } else if same(primary_capture, "punctuation") {
        base.with_fg(BASE01)
    } else {
        base
    }
}

} // verus!
