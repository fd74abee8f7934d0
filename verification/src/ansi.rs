//! Terminal control sequences: colours, cursor movement, clearing.
//!
//! Every sequence starts with the escape character and `[`. What follows is
//! fixed text, but for a colour given by number and a position or count taken
//! from a value.

use vstd::prelude::*;
use vstd::string::StringExecFns;

verus! {

/// A colour of the terminal.
#[derive(Clone, Copy, Debug, PartialEq, Eq)]
pub enum Color {
    Black,
    DarkRed,
    DarkGreen,
    DarkYellow,
    DarkBlue,
    DarkMagenta,
    DarkCyan,
    Grey,
    DarkGrey,
    Red,
    Green,
    Yellow,
    Blue,
    Magenta,
    Cyan,
    White,
    /// One of the 256 colours of the palette.
    Indexed(u8),
    /// Red, green and blue.
    Rgb(u8, u8, u8),
}

/// What a style applies to.
#[derive(Clone, Copy, Debug, PartialEq, Eq)]
pub enum Layer {
    Foreground,
    Background,
}

/// A colour to set, or the terminal's own to go back to.
#[derive(Clone, Copy, Debug, PartialEq, Eq)]
pub enum Style {
    Color(Color),
    Reset,
}

/// Where the cursor moves.
#[derive(Clone, Copy, Debug, PartialEq, Eq)]
pub enum Direction {
    Up,
    Down,
    Right,
    Left,
}

/// How much of the screen is cleared.
#[derive(Clone, Copy, Debug, PartialEq, Eq)]
pub enum ClearMode {
    All,
    Purge,
    FromCursorDown,
    FromCursorUp,
    CurrentLine,
    UntilNewLine,
}

/// The start of every control sequence.
pub open spec fn start() -> Seq<char> {
    seq!['\x1B', '[']
}

/// The place of a colour in the palette; none for one given by red, green
/// and blue.
pub open spec fn palette_index(color: Color) -> Option<u8> {
    match color {
        Color::Black => Some(0u8),
        Color::DarkRed => Some(1u8),
        Color::DarkGreen => Some(2u8),
        Color::DarkYellow => Some(3u8),
        Color::DarkBlue => Some(4u8),
        Color::DarkMagenta => Some(5u8),
        Color::DarkCyan => Some(6u8),
        Color::Grey => Some(7u8),
        Color::DarkGrey => Some(8u8),
        Color::Red => Some(9u8),
        Color::Green => Some(10u8),
        Color::Yellow => Some(11u8),
        Color::Blue => Some(12u8),
        Color::Magenta => Some(13u8),
        Color::Cyan => Some(14u8),
        Color::White => Some(15u8),
        Color::Indexed(n) => Some(n),
        Color::Rgb(_, _, _) => None,
    }
}

/// The code of a colour: `5;` and its place in the palette, or `2;` and its
/// red, green and blue.
pub open spec fn color_code(color: Color) -> Seq<char> {
    match color {
        Color::Rgb(r, g, b) => seq!['2', ';'] + crate::number::decimal_text(r as nat) + seq![';']
            + crate::number::decimal_text(g as nat) + seq![';'] + crate::number::decimal_text(
            b as nat,
        ),
        _ => seq!['5', ';'] + crate::number::decimal_text(palette_index(color).unwrap() as nat),
    }
}

/// The code that sets or resets a layer's colour.
pub open spec fn style_code(layer: Layer, style: Style) -> Seq<char> {
    match style {
        Style::Reset => match layer {
            Layer::Foreground => seq!['3', '9'],
            Layer::Background => seq!['4', '9'],
        },
        Style::Color(color) => match layer {
            Layer::Foreground => seq!['3', '8', ';'] + color_code(color),
            Layer::Background => seq!['4', '8', ';'] + color_code(color),
        },
    }
}

/// The sequence that sets or resets a layer's colour.
pub open spec fn set_style(layer: Layer, style: Style) -> Seq<char> {
    start() + style_code(layer, style) + seq!['m']
}

pub open spec fn cursor_show() -> Seq<char> {
    start() + seq!['?', '2', '5', 'h']
}

pub open spec fn cursor_hide() -> Seq<char> {
    start() + seq!['?', '2', '5', 'l']
}

pub open spec fn enter_alt_screen() -> Seq<char> {
    start() + seq!['?', '1', '0', '4', '9', 'h']
}

pub open spec fn leave_alt_screen() -> Seq<char> {
    start() + seq!['?', '1', '0', '4', '9', 'l']
}

/// The letter that ends a cursor movement.
pub open spec fn direction_code(direction: Direction) -> Seq<char> {
    match direction {
        Direction::Up => seq!['A'],
        Direction::Down => seq!['B'],
        Direction::Right => seq!['C'],
        Direction::Left => seq!['D'],
    }
}

/// What follows the start in a sequence that clears.
pub open spec fn clear_code(mode: ClearMode) -> Seq<char> {
    match mode {
        ClearMode::All => seq!['2', 'J'],
        ClearMode::Purge => seq!['3', 'J'],
        ClearMode::FromCursorDown => seq!['J'],
        ClearMode::FromCursorUp => seq!['1', 'J'],
        ClearMode::CurrentLine => seq!['2', 'K'],
        ClearMode::UntilNewLine => seq!['K'],
    }
}

pub open spec fn clear(mode: ClearMode) -> Seq<char> {
    start() + clear_code(mode)
}

/// The start of every control sequence.
pub fn start_text() -> (s: &'static str)
    ensures
        s@ == start(),
{
    proof {
        reveal_strlit("\x1B[");
        assert("\x1B["@ =~= start());
    }
    "\x1B["
}

fn palette_index_of(color: &Color) -> (i: Option<u8>)
    ensures
        i == palette_index(*color),
{
    match color {
        Color::Black => Some(0u8),
        Color::DarkRed => Some(1u8),
        Color::DarkGreen => Some(2u8),
        Color::DarkYellow => Some(3u8),
        Color::DarkBlue => Some(4u8),
        Color::DarkMagenta => Some(5u8),
        Color::DarkCyan => Some(6u8),
        Color::Grey => Some(7u8),
        Color::DarkGrey => Some(8u8),
        Color::Red => Some(9u8),
        Color::Green => Some(10u8),
        Color::Yellow => Some(11u8),
        Color::Blue => Some(12u8),
        Color::Magenta => Some(13u8),
        Color::Cyan => Some(14u8),
        Color::White => Some(15u8),
        Color::Indexed(n) => Some(*n),
        Color::Rgb(_, _, _) => None,
    }
}

/// The code of a colour.
pub fn color_code_text(color: &Color) -> (s: String)
    ensures
        s@ == color_code(*color),
{
    proof {
        reveal_strlit("2;");
        reveal_strlit("5;");
        reveal_strlit(";");
        assert("2;"@ =~= seq!['2', ';']);
        assert("5;"@ =~= seq!['5', ';']);
        assert(";"@ =~= seq![';']);
    }
    match color {
        Color::Rgb(r, g, b) => {
            let mut s = String::from_str("2;");
            let red = crate::number::unsigned_to_text(*r as u64);
            s.append(red.as_str());
            s.append(";");
            let green = crate::number::unsigned_to_text(*g as u64);
            s.append(green.as_str());
            s.append(";");
            let blue = crate::number::unsigned_to_text(*b as u64);
            s.append(blue.as_str());
            s
        },
        _ => {
            let index = palette_index_of(color);
            let mut s = String::from_str("5;");
            let digits = crate::number::unsigned_to_text(index.unwrap() as u64);
            s.append(digits.as_str());
            s
        },
    }
}

/// The sequence that sets or resets a layer's colour.
pub fn set_style_text(layer: &Layer, style: &Style) -> (s: String)
    ensures
        s@ == set_style(*layer, *style),
{
    proof {
        reveal_strlit("39");
        reveal_strlit("49");
        reveal_strlit("38;");
        reveal_strlit("48;");
        reveal_strlit("m");
        assert("39"@ =~= seq!['3', '9']);
        assert("49"@ =~= seq!['4', '9']);
        assert("38;"@ =~= seq!['3', '8', ';']);
        assert("48;"@ =~= seq!['4', '8', ';']);
        assert("m"@ =~= seq!['m']);
    }
    let mut s = String::from_str(start_text());
    match style {
        Style::Reset => match layer {
            Layer::Foreground => {
                s.append("39");
            },
            Layer::Background => {
                s.append("49");
            },
        },
        Style::Color(color) => {
            match layer {
                Layer::Foreground => {
                    s.append("38;");
                },
                Layer::Background => {
                    s.append("48;");
                },
            }
            let code = color_code_text(color);
            s.append(code.as_str());
        },
    }
    s.append("m");
    s
}

pub fn cursor_show_text() -> (s: &'static str)
    ensures
        s@ == cursor_show(),
{
    proof {
        reveal_strlit("\x1B[?25h");
        assert("\x1B[?25h"@ =~= cursor_show());
    }
    "\x1B[?25h"
}

pub fn cursor_hide_text() -> (s: &'static str)
    ensures
        s@ == cursor_hide(),
{
    proof {
        reveal_strlit("\x1B[?25l");
        assert("\x1B[?25l"@ =~= cursor_hide());
    }
    "\x1B[?25l"
}

pub fn enter_alt_screen_text() -> (s: &'static str)
    ensures
        s@ == enter_alt_screen(),
{
    proof {
        reveal_strlit("\x1B[?1049h");
        assert("\x1B[?1049h"@ =~= enter_alt_screen());
    }
    "\x1B[?1049h"
}

pub fn leave_alt_screen_text() -> (s: &'static str)
    ensures
        s@ == leave_alt_screen(),
{
    proof {
        reveal_strlit("\x1B[?1049l");
        assert("\x1B[?1049l"@ =~= leave_alt_screen());
    }
    "\x1B[?1049l"
}

/// The letter that ends a cursor movement.
pub fn direction_code_text(direction: &Direction) -> (s: &'static str)
    ensures
        s@ == direction_code(*direction),
{
    proof {
        reveal_strlit("A");
        reveal_strlit("B");
        reveal_strlit("C");
        reveal_strlit("D");
    }
    let s = match direction {
        Direction::Up => "A",
        Direction::Down => "B",
        Direction::Right => "C",
        Direction::Left => "D",
    };
    assert(s@ =~= direction_code(*direction));
    s
}

/// The sequence that clears.
pub fn clear_text(mode: &ClearMode) -> (s: &'static str)
    ensures
        s@ == clear(*mode),
{
    proof {
        reveal_strlit("\x1B[2J");
        reveal_strlit("\x1B[3J");
        reveal_strlit("\x1B[J");
        reveal_strlit("\x1B[1J");
        reveal_strlit("\x1B[2K");
        reveal_strlit("\x1B[K");
    }
    let s = match mode {
        ClearMode::All => "\x1B[2J",
        ClearMode::Purge => "\x1B[3J",
        ClearMode::FromCursorDown => "\x1B[J",
        ClearMode::FromCursorUp => "\x1B[1J",
        ClearMode::CurrentLine => "\x1B[2K",
        ClearMode::UntilNewLine => "\x1B[K",
    };
    assert(s@ =~= clear(*mode));
    s
}

} // verus!
