use vstd::prelude::*;
use vstd::string::*;
use colored::Colorize;

verus! {

/// What a piece of output text is, which decides how it is shown.
#[derive(Clone, Copy, PartialEq, Eq, Structural, Debug)]
pub enum Style {
    StringLit,
    Number,
    Boolean,
    Timestamp,
    Punctuation,
    KeyName,
    SectionHeader,
    ErrorLabel,
    ErrorValue,
    /// Text shown as it is: separators, spaces and line ends.
    Plain,
}

/// The terminal colors that styles are shown in.
#[derive(Clone, Copy, PartialEq, Eq, Structural, Debug)]
pub enum Color {
    Red,
    Green,
    Yellow,
    Blue,
    Purple,
    Magenta,
    White,
}

/// The color of each style; plain text has none.
pub open spec fn color_spec(s: Style) -> Option<Color> {
    match s {
        Style::StringLit => Some(Color::Green),
        Style::Number => Some(Color::Purple),
        Style::Boolean => Some(Color::Yellow),
        Style::Timestamp => Some(Color::Magenta),
        Style::Punctuation => Some(Color::Blue),
        Style::KeyName => Some(Color::Blue),
        Style::SectionHeader => Some(Color::White),
        Style::ErrorLabel => Some(Color::Red),
        Style::ErrorValue => Some(Color::Yellow),
        Style::Plain => None,
    }
}

pub fn color_of(s: Style) -> (r: Option<Color>)
    ensures
        r == color_spec(s),
{
    match s {
        Style::StringLit => Some(Color::Green),
        Style::Number => Some(Color::Purple),
        Style::Boolean => Some(Color::Yellow),
        Style::Timestamp => Some(Color::Magenta),
        Style::Punctuation => Some(Color::Blue),
        Style::KeyName => Some(Color::Blue),
        Style::SectionHeader => Some(Color::White),
        Style::ErrorLabel => Some(Color::Red),
        Style::ErrorValue => Some(Color::Yellow),
        Style::Plain => None,
    }
}

/// The ANSI foreground code of a color (purple is shown as magenta).
pub open spec fn fg_code(c: Color) -> Seq<char> {
    match c {
        Color::Red => seq!['3', '1'],
        Color::Green => seq!['3', '2'],
        Color::Yellow => seq!['3', '3'],
        Color::Blue => seq!['3', '4'],
        Color::Purple => seq!['3', '5'],
        Color::Magenta => seq!['3', '5'],
        Color::White => seq!['3', '7'],
    }
}

pub open spec fn esc() -> char {
    '\x1B'
}

/// The marker that switches a color on.
pub open spec fn open_marker(c: Color) -> Seq<char> {
    seq![esc(), '['] + fg_code(c) + seq!['m']
}

/// The marker that switches all styling off.
pub open spec fn reset_marker() -> Seq<char> {
    seq![esc(), '[', '0', 'm']
}

pub open spec fn contains_reset(t: Seq<char>) -> bool {
    exists|i: int| 0 <= i <= t.len() - 4 && #[trigger] t.subrange(i, i + 4) == reset_marker()
}

/// `r` is `t` as the terminal library shows it in color `c`: unchanged where
/// the library finds that the terminal takes no color, or else between the
/// color's marker and the reset marker (with `t` itself kept as it is when it
/// holds no reset marker of its own).
pub open spec fn painted(c: Color, t: Seq<char>, r: Seq<char>) -> bool {
    r == t || {
        &&& r.len() >= open_marker(c).len() + reset_marker().len()
        &&& r.subrange(0, open_marker(c).len() as int) == open_marker(c)
        &&& r.subrange(r.len() - reset_marker().len(), r.len() as int) == reset_marker()
        &&& !contains_reset(t) ==> r == open_marker(c) + t + reset_marker()
    }
}

/// `r` is how text `t` of style `s` is shown, with colors on or off.
pub open spec fn shown(s: Style, enabled: bool, t: Seq<char>, r: Seq<char>) -> bool {
    match color_spec(s) {
        Some(c) => if enabled {
            painted(c, t, r)
        } else {
            r == t
        },
        None => r == t,
    }
}

/// Relies on colored's `Colorize::color` and on the `Display` of the
/// `ColoredString` it returns: plain text when colors are switched off for
/// the process, else the color's escape sequence, the text (with the color
/// restated after each reset sequence in it), and the reset sequence.
#[verifier::external_body]
fn colorize(text: &str, color: Color) -> (r: String)
    ensures
        painted(color, text@, r@),
{
    let c = match color {
        Color::Red => colored::Color::Red,
        Color::Green => colored::Color::Green,
        Color::Yellow => colored::Color::Yellow,
        Color::Blue => colored::Color::Blue,
        Color::Purple => colored::Color::Magenta,
        Color::Magenta => colored::Color::Magenta,
        Color::White => colored::Color::White,
    };
    text.color(c).to_string()
}

/// Shows `text` in the style `style`; with colors off, the text itself.
pub fn annotate(text: &str, style: Style, color_enabled: bool) -> (r: String)
    ensures
        shown(style, color_enabled, text@, r@),
        !color_enabled ==> r@ == text@,
{
    match color_of(style) {
        Some(c) => if color_enabled {
            colorize(text, c)
        } else {
            String::from_str(text)
        },
        None => String::from_str(text),
    }
}

} // verus!
