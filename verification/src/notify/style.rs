//! Terminal colors of the status words.

use vstd::prelude::*;

verus! {

/// How a status word is painted.
#[derive(Copy, Clone, Debug, PartialEq, Eq, Structural)]
pub enum Style {
    Plain,
    Red,
    Green,
    Yellow,
}

pub const FAILED: Style = Style::Red;

pub const OK: Style = Style::Green;

pub const IGNORED: Style = Style::Yellow;

/// The escape sequence that switches a style on: `ESC [ 3 n m` for the color numbered `n`.
pub open spec fn start_code(style: Style) -> Seq<char> {
    match style {
        Style::Plain => Seq::empty(),
        Style::Red => seq!['\u{1b}', '[', '3', '1', 'm'],
        Style::Green => seq!['\u{1b}', '[', '3', '2', 'm'],
        Style::Yellow => seq!['\u{1b}', '[', '3', '3', 'm'],
    }
}

/// The escape sequence that switches a style off again: `ESC [ 0 m`, and nothing for the
/// plain style.
pub open spec fn reset_code(style: Style) -> Seq<char> {
    match style {
        Style::Plain => Seq::empty(),
        _ => seq!['\u{1b}', '[', '0', 'm'],
    }
}

/// `word` painted in `style`.
pub open spec fn painted(style: Style, word: Seq<char>) -> Seq<char> {
    start_code(style) + word + reset_code(style)
}

/// The style in which a word is written: `style` where the report is colored, and plain
/// where it is not.
pub open spec fn tone(colored: bool, style: Style) -> Style {
    if colored {
        style
    } else {
        Style::Plain
    }
}

/// The style in which a word is written.
pub fn tone_of(colored: bool, style: Style) -> (out: Style)
    ensures
        out == tone(colored, style),
{
    if colored {
        style
    } else {
        Style::Plain
    }
}

/// A word in the plain style is the word itself.
pub proof fn lemma_plain_word(word: Seq<char>)
    ensures
        painted(Style::Plain, word) == word,
{
    assert(painted(Style::Plain, word) =~= word);
}

/// `anstyle::Style::render`: the ANSI code of a style that sets at most a foreground color
/// is the foreground code of that color, and empty for the plain style.
#[verifier::external_body]
fn render(style: Style) -> (code: String)
    ensures
        code@ == start_code(style),
{
    let fg = match style {
        Style::Plain => None,
        Style::Red => Some(anstyle::Color::Ansi(anstyle::AnsiColor::Red)),
        Style::Green => Some(anstyle::Color::Ansi(anstyle::AnsiColor::Green)),
        Style::Yellow => Some(anstyle::Color::Ansi(anstyle::AnsiColor::Yellow)),
    };
    anstyle::Style::new().fg_color(fg).render().to_string()
}

/// `anstyle::Style::render_reset`: the reset code for every style but the plain one, for
/// which it is empty.
#[verifier::external_body]
fn render_reset(style: Style) -> (code: String)
    ensures
        code@ == reset_code(style),
{
    let fg = match style {
        Style::Plain => None,
        Style::Red => Some(anstyle::Color::Ansi(anstyle::AnsiColor::Red)),
        Style::Green => Some(anstyle::Color::Ansi(anstyle::AnsiColor::Green)),
        Style::Yellow => Some(anstyle::Color::Ansi(anstyle::AnsiColor::Yellow)),
    };
    anstyle::Style::new().fg_color(fg).render_reset().to_string()
}

/// Appends `word`, painted in `style`, to `out`.
pub fn push_painted(out: &mut String, style: Style, word: &str)
    ensures
        final(out)@ == old(out)@ + painted(style, word@),
{
    let start = render(style);
    let reset = render_reset(style);
    out.append(start.as_str());
    out.append(word);
    out.append(reset.as_str());
    proof {
        assert(out@ =~= old(out)@ + painted(style, word@));
    }
}

} // verus!
