//! The colors that tell the spans of one line apart.

use owo_colors::{OwoColorize, Stream};
use vstd::prelude::*;

verus! {

/// A color of the palette.
#[derive(PartialEq, Eq, Structural, Copy, Clone, Debug)]
pub enum SpanColor {
    BrightBlue,
    BrightCyan,
    BrightMagenta,
    Yellow,
    BrightGreen,
    Red,
}

/// The number of colors in the palette.
pub const PALETTE_LEN: usize = 6;

/// The palette of colors that is cycled through to distinguish second-level (i.e. depth-1) spans
/// within a single line of output.
pub open spec fn palette() -> Seq<SpanColor> {
    seq![
        SpanColor::BrightBlue,
        SpanColor::BrightCyan,
        SpanColor::BrightMagenta,
        SpanColor::Yellow,
        SpanColor::BrightGreen,
        SpanColor::Red,
    ]
}

impl SpanColor {
    /// The color of the span that is created as number `count` below one root.
    pub open spec fn of_count(count: usize) -> SpanColor {
        palette()[(count % PALETTE_LEN) as int]
    }

    /// The color of the span that is created as number `count` below one root.
    pub fn from_count(count: usize) -> (color: SpanColor)
        ensures
            color == SpanColor::of_count(count),
    {
        match count % PALETTE_LEN {
            0 => SpanColor::BrightBlue,
            1 => SpanColor::BrightCyan,
            2 => SpanColor::BrightMagenta,
            3 => SpanColor::Yellow,
            4 => SpanColor::BrightGreen,
            _ => SpanColor::Red,
        }
    }

    /// The escape code that switches to the color.
    pub open spec fn start_code(self) -> Seq<char> {
        match self {
            SpanColor::BrightBlue => "\u{1b}[94m"@,
            SpanColor::BrightCyan => "\u{1b}[96m"@,
            SpanColor::BrightMagenta => "\u{1b}[95m"@,
            SpanColor::Yellow => "\u{1b}[33m"@,
            SpanColor::BrightGreen => "\u{1b}[92m"@,
            SpanColor::Red => "\u{1b}[31m"@,
        }
    }

    /// The text between the escape codes for the color.
    pub open spec fn wrapped(self, text: Seq<char>) -> Seq<char> {
        self.start_code() + text + "\u{1b}[39m"@
    }
}

/// `shown` is what [`if_supports_color`] makes of the text in the color.
pub closed spec fn drawn(color: SpanColor, text: Seq<char>, shown: Seq<char>) -> bool {
    exists|message: String, drawing: String|
        {
            &&& message@ == text
            &&& drawing@ == shown
            &&& #[trigger] call_ensures(if_supports_color, (&message, color), drawing)
        }
}

/// `shown` is `text` in the given color, if any: with the escape codes for it, or without them
/// where they are not supported. Whether they are is for [`if_supports_color`] to say.
pub open spec fn colorized(color: Option<SpanColor>, text: Seq<char>, shown: Seq<char>) -> bool {
    match color {
        Some(color) => {
            &&& drawn(color, text, shown)
            &&& shown == text || shown == color.wrapped(text)
        },
        None => shown == text,
    }
}

/// [`OwoColorize::if_supports_color`] with [`OwoColorize::color`]: the text between the escape codes
/// of the color if standard output supports them, and the text as it is otherwise. Which of the two
/// comes out depends on the terminal and on the environment and is not claimed.
#[verifier::external_body]
fn if_supports_color(text: &String, color: SpanColor) -> (shown: String)
    ensures
        shown@ == text@ || shown@ == color.wrapped(text@),
{
    let color = match color {
        SpanColor::BrightBlue => owo_colors::AnsiColors::BrightBlue,
        SpanColor::BrightCyan => owo_colors::AnsiColors::BrightCyan,
        SpanColor::BrightMagenta => owo_colors::AnsiColors::BrightMagenta,
        SpanColor::Yellow => owo_colors::AnsiColors::Yellow,
        SpanColor::BrightGreen => owo_colors::AnsiColors::BrightGreen,
        SpanColor::Red => owo_colors::AnsiColors::Red,
    };
    text.if_supports_color(Stream::Stdout, |text| text.color(color)).to_string()
}

/// Wraps `message` in the escape codes for the given color, if any.
///
/// The escape codes are left out where standard output does not support them.
pub fn colorize(color: Option<SpanColor>, message: String) -> (shown: String)
    ensures
        colorized(color, message@, shown@),
        color is None ==> shown == message,
{
    match color {
        Some(color) => if_supports_color(&message, color),
        None => message,
    }
}

} // verus!
