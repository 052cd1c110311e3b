//! How parameters are shown.

use crate::section::SysctlSection;
use colored::Color::{
    Black, Blue, BrightBlack, BrightBlue, BrightCyan, BrightGreen, BrightMagenta, BrightRed,
    BrightWhite, BrightYellow, Cyan, Green, Magenta, Red, TrueColor, White, Yellow,
};
use colored::Colorize;
use vstd::prelude::*;

verus! {

/// A color of the terminal.
#[derive(Clone, Copy, Debug, PartialEq, Eq, Structural)]
#[allow(missing_docs)]
pub enum Color {
    Black,
    Red,
    Green,
    Yellow,
    Blue,
    Magenta,
    Cyan,
    White,
    BrightBlack,
    BrightRed,
    BrightGreen,
    BrightYellow,
    BrightBlue,
    BrightMagenta,
    BrightCyan,
    BrightWhite,
    /// A color by its parts of red, green and blue.
    TrueColor { r: u8, g: u8, b: u8 },
}

impl Color {
    /// The number that asks a terminal for the color as the color of text.
    /// A color given by its parts has none of its own: what the terminal is
    /// asked for depends on what the terminal can show.
    pub open spec fn code(self) -> Option<Seq<char>> {
        match self {
            Color::Black => Some("30"@),
            Color::Red => Some("31"@),
            Color::Green => Some("32"@),
            Color::Yellow => Some("33"@),
            Color::Blue => Some("34"@),
            Color::Magenta => Some("35"@),
            Color::Cyan => Some("36"@),
            Color::White => Some("37"@),
            Color::BrightBlack => Some("90"@),
            Color::BrightRed => Some("91"@),
            Color::BrightGreen => Some("92"@),
            Color::BrightYellow => Some("93"@),
            Color::BrightBlue => Some("94"@),
            Color::BrightMagenta => Some("95"@),
            Color::BrightCyan => Some("96"@),
            Color::BrightWhite => Some("97"@),
            Color::TrueColor { .. } => None,
        }
    }
}

/// What of a parameter is shown.
#[derive(Clone, Copy, Debug, PartialEq, Eq, Structural)]
pub enum DisplayType {
    /// The name alone.
    Name,
    /// The value alone.
    Value,
    /// The value alone, with no line break after it.
    Binary,
    /// The name and the value.
    Default,
}

/// The settings that decide how parameters are shown.
pub struct Config {
    /// What of a parameter is shown.
    pub display_type: DisplayType,
    /// The colors of the sections. Of two entries for one section the first
    /// counts.
    pub section_colors: Vec<(SysctlSection, Color)>,
    /// The color of what has no color of its own.
    pub default_color: Color,
    /// Whether a changed value is shown.
    pub quiet: bool,
}

/// The color among `colors` from position `k` on that is given for
/// `section`, or `fallback`.
pub open spec fn color_from(
    colors: Seq<(SysctlSection, Color)>,
    section: SysctlSection,
    fallback: Color,
    k: int,
) -> Color
    decreases colors.len() - k,
{
    if 0 <= k < colors.len() {
        if colors[k].0 == section {
            colors[k].1
        } else {
            color_from(colors, section, fallback, k + 1)
        }
    } else {
        fallback
    }
}

impl Config {
    /// The color in which the names of `section` are shown.
    pub open spec fn color_of(&self, section: SysctlSection) -> Color {
        color_from(self.section_colors@, section, self.default_color, 0)
    }

    /// The color in which the names of `section` are shown: the one given
    /// for the section, or the default color.
    pub fn section_color(&self, section: SysctlSection) -> (color: Color)
        ensures
            color == self.color_of(section),
    {
        let mut k: usize = 0;
        while k < self.section_colors.len()
            invariant
                k <= self.section_colors.len(),
                self.color_of(section) == color_from(
                    self.section_colors@,
                    section,
                    self.default_color,
                    k as int,
                ),
            decreases self.section_colors.len() - k,
        {
            if self.section_colors[k].0 == section {
                return self.section_colors[k].1;
            }
            k += 1;
        }
        self.default_color
    }
}

/// The sequence that ends the styling of a text on a terminal.
pub open spec fn reset() -> Seq<char> {
    seq!['\x1b', '[', '0', 'm']
}

/// The sequence that starts the styling that `code` asks for.
pub open spec fn style_of(code: Seq<char>) -> Seq<char> {
    seq!['\x1b', '['] + code + seq!['m']
}

/// A sequence that starts the styling of a text on a terminal: it opens
/// with the escape character and a bracket, and closes with `m`.
pub open spec fn is_style(style: Seq<char>) -> bool {
    style.len() >= 3 && style[0] == '\x1b' && style[1] == '[' && style.last() == 'm'
}

/// `inner` between `style` and the reset sequence.
pub open spec fn wrapped(style: Seq<char>, inner: Seq<char>) -> Seq<char> {
    style + inner + reset()
}

/// `painted` is a text between `style` and the reset sequence, and that
/// text is `text` itself unless `text` holds an escape character.
pub open spec fn is_styled(text: Seq<char>, style: Seq<char>, painted: Seq<char>) -> bool {
    exists|inner: Seq<char>|
        #[trigger] wrapped(style, inner) == painted && (!text.contains('\x1b') ==> inner == text)
}

/// What painting in `color` may make of `text`: the text itself, where the
/// terminal is given no styles; else the text styled with the code of the
/// color, or with some style where the color has no code of its own.
pub open spec fn is_colored(text: Seq<char>, color: Color, painted: Seq<char>) -> bool {
    painted == text || match color.code() {
        Some(code) => is_styled(text, style_of(code), painted),
        None => exists|style: Seq<char>| is_style(style) && #[trigger] is_styled(text, style, painted),
    }
}

/// What setting in bold may make of `text`: the text itself, where the
/// terminal is given no styles; else the text styled as bold.
pub open spec fn is_bold(text: Seq<char>, painted: Seq<char>) -> bool {
    painted == text || is_styled(text, style_of("1"@), painted)
}

/// `Colorize::color` on a string slice, shown as a string: `text` in the
/// given color. Whether the crate styles at all depends on the terminal and
/// on the environment, so the result is either the text as it is or the
/// text styled; a styled result starts with the code that the crate has for
/// the color.
#[verifier::external_body]
pub(crate) fn paint(text: &str, color: Color) -> (painted: String)
    ensures
        is_colored(text@, color, painted@),
{
    let tint = match color {
        Color::Black => Black, Color::Red => Red, Color::Green => Green,
        Color::Yellow => Yellow, Color::Blue => Blue, Color::Magenta => Magenta,
        Color::Cyan => Cyan, Color::White => White, Color::BrightBlack => BrightBlack,
        Color::BrightRed => BrightRed, Color::BrightGreen => BrightGreen,
        Color::BrightYellow => BrightYellow, Color::BrightBlue => BrightBlue,
        Color::BrightMagenta => BrightMagenta, Color::BrightCyan => BrightCyan,
        Color::BrightWhite => BrightWhite,
        Color::TrueColor { r, g, b } => TrueColor { r, g, b },
    };
    text.color(tint).to_string()
}

/// `Colorize::bold` on a string slice, shown as a string: `text` in bold,
/// under the same conditions as a color.
#[verifier::external_body]
pub(crate) fn embolden(text: &str) -> (painted: String)
    ensures
        is_bold(text@, painted@),
{
    text.bold().to_string()
}

} // verus!
