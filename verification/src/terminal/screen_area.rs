//! A sink that knows on which row of its area the cursor stands.

use vstd::prelude::*;
use vstd::string::StringExecFns;
use crate::ansi::{ClearMode, Direction};
use crate::write::{Flush, SinkOp, Write};
use crate::write_to::WriteTo;

verus! {

/// A sink wrapped so that the row of the cursor is counted: every line
/// terminator written through it moves the cursor down by one.
pub struct ScreenArea<W: Write> {
    pub cursor_y: u16,
    pub writer: W,
}

/// On which side of a row another row lies.
pub enum Side {
    /// Further down.
    Below,
    /// Further up.
    Above,
}

/// `a + b`, or the greatest row if that is less.
pub open spec fn saturating_row(a: int, b: int) -> int {
    if a + b > u16::MAX {
        u16::MAX as int
    } else if a + b < 0 {
        0
    } else {
        a + b
    }
}

/// The pieces that move the cursor by `count` rows or columns.
pub open spec fn cursor_move_pieces(direction: Direction, count: u16) -> Seq<Seq<char>> {
    seq![
        crate::ansi::start(),
        crate::number::decimal_text(count as nat),
        crate::ansi::direction_code(direction),
    ]
}

/// What a movement of the cursor does to a sink: the three pieces, and a
/// flush.
pub open spec fn cursor_move_ops(direction: Direction, count: u16) -> Seq<SinkOp> {
    crate::write::text_ops(cursor_move_pieces(direction, count)).push(SinkOp::Flush)
}

/// What moving from row `from` to row `to` does to a sink: nothing if they
/// are the same row, else one movement down or up by their distance.
pub open spec fn move_to_ops(from: u16, to: u16) -> Seq<SinkOp> {
    if from == to {
        Seq::empty()
    } else if from < to {
        cursor_move_ops(Direction::Down, (to - from) as u16)
    } else {
        cursor_move_ops(Direction::Up, (from - to) as u16)
    }
}

/// The one piece that clears from the first column of the cursor's row down.
pub open spec fn clear_down_text() -> Seq<char> {
    crate::ansi::start() + seq!['1', 'G'] + crate::ansi::clear(ClearMode::FromCursorDown)
}

/// What clearing from the cursor down does to a sink: the piece, and a flush.
pub open spec fn clear_down_ops() -> Seq<SinkOp> {
    seq![SinkOp::Text(clear_down_text()), SinkOp::Flush]
}

/// How far `b` is from `a`, and on which side; none if they are the same.
fn offset_between(a: u16, b: u16) -> (r: Option<(Side, u16)>)
    ensures
        a == b ==> r is None,
        a < b ==> (r matches Some((Side::Below, offset)) && offset == b - a),
        a > b ==> (r matches Some((Side::Above, offset)) && offset == a - b),
{
    if a == b {
        None
    } else if a > b {
        Some((Side::Above, a - b))
    } else {
        Some((Side::Below, b - a))
    }
}

/// Writes a movement of the cursor, and flushes if all of it was written.
pub fn write_cursor_move<W: Write>(w: &mut W, direction: Direction, count: u16) -> (r: Result<
    (),
    W::Error,
>)
    ensures
        crate::write::run(*old(w), cursor_move_ops(direction, count), *final(w), r),
{
    let ghost start = *w;
    let ghost pieces = cursor_move_pieces(direction, count);
    let mut texts: Vec<String> = Vec::new();
    texts.push(String::from_str(crate::ansi::start_text()));
    texts.push(crate::number::unsigned_to_text(count as u64));
    texts.push(String::from_str(crate::ansi::direction_code_text(&direction)));
    proof {
        assert(crate::render::text_views(texts@) =~= pieces);
    }
    crate::render::write_texts_and_flush(w, &texts)
}

/// Writes the piece that clears from the cursor's row down, and flushes if it
/// was written.
pub fn write_clear_down<W: Write>(w: &mut W) -> (r: Result<(), W::Error>)
    ensures
        crate::write::run(*old(w), clear_down_ops(), *final(w), r),
{
    proof {
        reveal_strlit("1G");
        assert("1G"@ =~= seq!['1', 'G']);
    }
    let mut text = String::from_str(crate::ansi::start_text());
    text.append("1G");
    text.append(crate::ansi::clear_text(&ClearMode::FromCursorDown));
    let mut texts: Vec<String> = Vec::new();
    texts.push(text);
    proof {
        assert(crate::render::text_views(texts@) =~= seq![clear_down_text()]);
        assert(crate::write::text_ops(seq![clear_down_text()]).push(SinkOp::Flush)
            =~= clear_down_ops());
    }
    crate::render::write_texts_and_flush(w, &texts)
}

impl<W: Write> ScreenArea<W> {
    /// An area on `writer` with the cursor on its first row.
    pub fn new(writer: W) -> (area: Self)
        ensures
            area.cursor_y == 0,
            area.writer == writer,
    {
        Self { cursor_y: 0, writer }
    }

    /// Moves the cursor to row `y`. The row is counted as `y` whether or not
    /// the movement could be written.
    pub fn move_to_y(&mut self, y: u16) -> (r: Result<(), W::Error>)
        ensures
            final(self).cursor_y == y,
            crate::write::run(
                old(self).writer,
                move_to_ops(old(self).cursor_y, y),
                final(self).writer,
                r,
            ),
    {
        match offset_between(self.cursor_y, y) {
            Some((side, offset)) => {
                self.cursor_y = y;
                match side {
                    Side::Below => write_cursor_move(&mut self.writer, Direction::Down, offset),
                    Side::Above => write_cursor_move(&mut self.writer, Direction::Up, offset),
                }
            },
            None => Ok(()),
        }
    }

    /// Moves the cursor up by `up` rows, as far as the first row is counted.
    pub fn move_up(&mut self, up: u16) -> (r: Result<(), W::Error>)
        ensures
            final(self).cursor_y == saturating_row(old(self).cursor_y as int, -(up as int)),
            crate::write::run(
                old(self).writer,
                cursor_move_ops(Direction::Up, up),
                final(self).writer,
                r,
            ),
    {
        self.cursor_y = if self.cursor_y >= up {
            self.cursor_y - up
        } else {
            0
        };
        write_cursor_move(&mut self.writer, Direction::Up, up)
    }

    /// Moves the cursor down by `down` rows, as far as rows are counted.
    pub fn move_down(&mut self, down: u16) -> (r: Result<(), W::Error>)
        ensures
            final(self).cursor_y == saturating_row(old(self).cursor_y as int, down as int),
            crate::write::run(
                old(self).writer,
                cursor_move_ops(Direction::Down, down),
                final(self).writer,
                r,
            ),
    {
        self.cursor_y = if down <= u16::MAX - self.cursor_y {
            self.cursor_y + down
        } else {
            u16::MAX
        };
        write_cursor_move(&mut self.writer, Direction::Down, down)
    }

    /// Clears the area: from its first row down.
    pub fn clear(&mut self) -> (r: Result<(), W::Error>)
        ensures
            final(self).cursor_y == 0,
            crate::write::run(
                old(self).writer,
                move_to_ops(old(self).cursor_y, 0) + clear_down_ops(),
                final(self).writer,
                r,
            ),
    {
        self.clear_from(0)
    }

    /// Moves the cursor to row `y` and clears from there down. If the
    /// movement cannot be written, nothing is cleared.
    pub fn clear_from(&mut self, y: u16) -> (r: Result<(), W::Error>)
        ensures
            final(self).cursor_y == y,
            crate::write::run(
                old(self).writer,
                move_to_ops(old(self).cursor_y, y) + clear_down_ops(),
                final(self).writer,
                r,
            ),
    {
        let ghost start = self.writer;
        let ghost moving = move_to_ops(self.cursor_y, y);
        let moved = self.move_to_y(y);
        match moved {
            Ok(()) => {
                proof {
                    crate::write::lemma_ok_is_unit(moved);
                }
            },
            Err(e) => {
                proof {
                    crate::write::lemma_run_failed_extend(
                        start,
                        moving,
                        self.writer,
                        moved,
                        clear_down_ops(),
                    );
                }
                return Err(e);
            },
        }
        let ghost mid = self.writer;
        let r = write_clear_down(&mut self.writer);
        proof {
            crate::write::lemma_run_concat(start, moving, mid, clear_down_ops(), self.writer, r);
        }
        r
    }

    /// Writes the first line of `s` to the sink beneath. The row of the
    /// cursor stays as it is counted.
    pub fn write_str_first_line(&mut self, s: &str) -> (r: Result<(), W::Error>)
        ensures
            final(self).cursor_y == old(self).cursor_y,
            W::write_step(
                old(self).writer,
                crate::utils::spec_first_line(s@),
                final(self).writer,
                r,
            ),
    {
        self.writer.write_str(crate::utils::first_line_no_debug_assertion(s))
    }
}

/// The row of the cursor after `t` is written from row `y`.
pub open spec fn row_after(y: u16, t: Seq<char>) -> int {
    saturating_row(y as int, crate::utils::spec_count_newlines(t) as int)
}

impl<W: Write> Write for ScreenArea<W> {
    type Error = W::Error;

    const IS_LINE_BUFFERED: bool = W::IS_LINE_BUFFERED;

    /// The line terminators of `s` are counted first, then `s` goes to the
    /// sink beneath, which is then flushed unless it is known to have done
    /// so by itself.
    open spec fn write_step(pre: Self, s: Seq<char>, post: Self, r: Result<(), Self::Error>) -> bool {
        &&& post.cursor_y == row_after(pre.cursor_y, s)
        &&& crate::write::run(
            pre.writer,
            crate::write_to::write_ops(
                seq![s],
                false,
                true,
                W::IS_LINE_BUFFERED,
                crate::write_to::ends_line(s),
            ),
            post.writer,
            r,
        )
    }

    open spec fn flush_step(pre: Self, post: Self) -> bool {
        post.cursor_y == pre.cursor_y && crate::write::flush_may(pre.writer, post.writer)
    }

    fn write_str(&mut self, s: &str) -> (r: Result<(), Self::Error>) {
        let lines = crate::utils::count_newlines(s);
        self.cursor_y = if lines <= (u16::MAX - self.cursor_y) as usize {
            self.cursor_y + lines as u16
        } else {
            u16::MAX
        };
        crate::write_to::write_text_advanced(&mut self.writer, s, true, false)
    }

    fn flush_hint(&mut self) {
        self.writer.flush_hint();
    }
}

impl<W: Flush + Write> Flush for ScreenArea<W> {
    type Error = <W as Flush>::Error;

    open spec fn flushed(pre: Self, post: Self, r: Result<(), Self::Error>) -> bool {
        post.cursor_y == pre.cursor_y && <W as Flush>::flushed(pre.writer, post.writer, r)
    }

    fn flush(&mut self) -> (r: Result<(), Self::Error>) {
        self.writer.flush()
    }
}

} // verus!
