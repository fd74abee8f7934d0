//! Templates: what an author writes, and what it expands to.
//!
//! A template is a sequence of tokens: literal text, slots, iterations and
//! directives. Directives are shorthands. Expansion replaces each by the
//! literal text and slots it stands for, so that what comes out holds no
//! directive, and rejects what is no template.

use vstd::prelude::*;
use vstd::string::StringExecFns;
use crate::ansi::{ClearMode, Color, Direction, Layer, Style};
use crate::value::{Capture, RenderMode, Value, ValueView};

verus! {

/// A position in a template where a value is rendered.
#[derive(Debug)]
pub struct Slot {
    pub value: Value,
    pub mode: RenderMode,
    pub capture: Capture,
}

/// A slot as contracts see it.
pub struct SlotView {
    pub value: ValueView,
    pub mode: RenderMode,
    pub capture: Capture,
}

impl View for Slot {
    type V = SlotView;

    open spec fn view(&self) -> SlotView {
        SlotView { value: self.value@, mode: self.mode, capture: self.capture }
    }
}

/// One token of the template that an iteration applies to each element.
#[derive(Debug)]
pub enum ItemToken {
    Literal(String),
    /// The element, rendered in this mode.
    Item(RenderMode),
    /// A value of its own, the same for every element.
    Slot(Slot),
}

/// An [`ItemToken`] as contracts see it.
pub enum ItemPart {
    Text(Seq<char>),
    Item(RenderMode),
    Slot(SlotView),
}

impl View for ItemToken {
    type V = ItemPart;

    open spec fn view(&self) -> ItemPart {
        match self {
            ItemToken::Literal(s) => ItemPart::Text(s@),
            ItemToken::Item(mode) => ItemPart::Item(*mode),
            ItemToken::Slot(slot) => ItemPart::Slot(slot@),
        }
    }
}

/// A template applied once to each element of a sequence, with a separator
/// between two elements if one is given.
#[derive(Debug)]
pub struct Iterate {
    pub source: Vec<Value>,
    pub separator: Option<String>,
    pub body: Vec<ItemToken>,
}

/// An [`Iterate`] as contracts see it.
pub struct IterateView {
    pub source: Seq<ValueView>,
    pub separator: Option<Seq<char>>,
    pub body: Seq<ItemPart>,
}

/// The views of a sequence of values.
pub open spec fn value_views(values: Seq<Value>) -> Seq<ValueView> {
    Seq::new(values.len(), |i: int| values[i]@)
}

/// The views of the tokens of an iteration's template.
pub open spec fn item_views(body: Seq<ItemToken>) -> Seq<ItemPart> {
    Seq::new(body.len(), |i: int| body[i]@)
}

impl View for Iterate {
    type V = IterateView;

    open spec fn view(&self) -> IterateView {
        IterateView {
            source: value_views(self.source@),
            separator: match self.separator {
                Some(s) => Some(s@),
                None => None,
            },
            body: item_views(self.body@),
        }
    }
}

/// A number in a control sequence: written out, or taken from a slot.
#[derive(Debug)]
pub enum Count {
    Fixed(u16),
    Slot(Slot),
}

/// A position on the screen: the first row or column, or a number.
#[derive(Debug)]
pub enum Coord {
    Start,
    At(Count),
}

/// A structural shorthand. None is left after expansion.
#[derive(Debug)]
pub enum Directive {
    LineBreak,
    /// Tokens in brackets: they stand for themselves.
    Group(Vec<Token>),
    /// The paired form of a style: the colour is set, the tokens follow, and
    /// the colour is reset.
    Styled(Layer, Color, Vec<Token>),
    /// A style that is set or reset and stays.
    SetStyle(Layer, Style),
    CursorShow,
    CursorHide,
    CursorMove(Direction, Count),
    CursorMoveToX(Coord),
    CursorMoveToY(Coord),
    /// Column, then row.
    CursorMoveTo(Coord, Coord),
    EnterAltScreen,
    LeaveAltScreen,
    Clear(ClearMode),
    /// The cursor goes to the first column and the line is cleared.
    ResetLine,
    /// A literal written in the form of a slot.
    LiteralCapture(String),
    /// A macro call outside brackets; it is rejected.
    MacroCall(String),
    /// A token of no known shape; it is rejected.
    Unrecognized(String),
}

/// A token of a template as its author writes it.
#[derive(Debug)]
pub enum Token {
    Literal(String),
    Slot(Slot),
    Iterate(Iterate),
    Directive(Directive),
}

/// A token of an expanded template.
#[derive(Debug)]
pub enum Part {
    Literal(String),
    Slot(Slot),
    Iterate(Iterate),
}

/// A [`Part`] as contracts see it.
pub enum PartView {
    Text(Seq<char>),
    Slot(SlotView),
    Iterate(IterateView),
}

impl View for Part {
    type V = PartView;

    open spec fn view(&self) -> PartView {
        match self {
            Part::Literal(s) => PartView::Text(s@),
            Part::Slot(slot) => PartView::Slot(slot@),
            Part::Iterate(iterate) => PartView::Iterate(iterate@),
        }
    }
}

/// The views of a sequence of parts.
pub open spec fn part_views(parts: Seq<Part>) -> Seq<PartView> {
    Seq::new(parts.len(), |i: int| parts[i]@)
}

/// Why a template is rejected.
#[derive(Debug)]
pub enum TemplateError {
    /// A macro call stands where a literal or a slot was expected; the
    /// fragment is the call.
    MacroOutsideBrackets(String),
    /// A token has no known shape; the fragment is the token.
    UnrecognizedToken(String),
    /// The part at this place of the template, once it is expanded and its
    /// literals are merged, holds a value that cannot be rendered in the mode
    /// asked for.
    MissingCapability(usize),
}

/// A [`TemplateError`] as contracts see it.
pub enum TemplateErrorView {
    MacroOutsideBrackets(Seq<char>),
    UnrecognizedToken(Seq<char>),
    MissingCapability(usize),
}

impl View for TemplateError {
    type V = TemplateErrorView;

    open spec fn view(&self) -> TemplateErrorView {
        match self {
            TemplateError::MacroOutsideBrackets(s) => TemplateErrorView::MacroOutsideBrackets(s@),
            TemplateError::UnrecognizedToken(s) => TemplateErrorView::UnrecognizedToken(s@),
            TemplateError::MissingCapability(i) => TemplateErrorView::MissingCapability(*i),
        }
    }
}

/// The parts a number in a control sequence stands for.
pub open spec fn count_parts(count: Count) -> Seq<PartView> {
    match count {
        Count::Fixed(n) => seq![PartView::Text(crate::number::decimal_text(n as nat))],
        Count::Slot(slot) => seq![PartView::Slot(slot@)],
    }
}

/// The parts a position stands for; the first row or column is `1`.
pub open spec fn coord_parts(coord: Coord) -> Seq<PartView> {
    match coord {
        Coord::Start => seq![PartView::Text(seq!['1'])],
        Coord::At(count) => count_parts(count),
    }
}

/// The parts that move the cursor to a column.
pub open spec fn move_to_x_parts(x: Coord) -> Seq<PartView> {
    seq![PartView::Text(crate::ansi::start())] + coord_parts(x) + seq![PartView::Text(seq!['G'])]
}

/// The parts a token stands for, in order.
pub open spec fn spec_expand_token(token: Token) -> Seq<PartView>
    decreases token,
{
    match token {
        Token::Literal(s) => seq![PartView::Text(s@)],
        Token::Slot(slot) => seq![PartView::Slot(slot@)],
        Token::Iterate(iterate) => seq![PartView::Iterate(iterate@)],
        Token::Directive(directive) => match directive {
            Directive::LineBreak => seq![PartView::Text(seq!['\n'])],
            Directive::Group(tokens) => spec_expand(tokens@),
            Directive::Styled(layer, color, tokens) => seq![
                PartView::Text(crate::ansi::set_style(layer, Style::Color(color))),
            ] + spec_expand(tokens@) + seq![
                PartView::Text(crate::ansi::set_style(layer, Style::Reset)),
            ],
            Directive::SetStyle(layer, style) => seq![
                PartView::Text(crate::ansi::set_style(layer, style)),
            ],
            Directive::CursorShow => seq![PartView::Text(crate::ansi::cursor_show())],
            Directive::CursorHide => seq![PartView::Text(crate::ansi::cursor_hide())],
            Directive::CursorMove(direction, count) => seq![
                PartView::Text(crate::ansi::start()),
            ] + count_parts(count) + seq![PartView::Text(crate::ansi::direction_code(direction))],
            Directive::CursorMoveToX(x) => move_to_x_parts(x),
            Directive::CursorMoveToY(y) => seq![PartView::Text(crate::ansi::start())]
                + coord_parts(y) + seq![PartView::Text(seq!['d'])],
            Directive::CursorMoveTo(x, y) => seq![PartView::Text(crate::ansi::start())]
                + coord_parts(y) + seq![PartView::Text(seq![';'])] + coord_parts(x) + seq![
                PartView::Text(seq!['H']),
            ],
            Directive::EnterAltScreen => seq![PartView::Text(crate::ansi::enter_alt_screen())],
            Directive::LeaveAltScreen => seq![PartView::Text(crate::ansi::leave_alt_screen())],
            Directive::Clear(mode) => seq![PartView::Text(crate::ansi::clear(mode))],
            Directive::ResetLine => move_to_x_parts(Coord::Start) + seq![
                PartView::Text(crate::ansi::clear(ClearMode::CurrentLine)),
            ],
            Directive::LiteralCapture(s) => seq![PartView::Text(s@)],
            Directive::MacroCall(_) => Seq::empty(),
            Directive::Unrecognized(_) => Seq::empty(),
        },
    }
}

/// The parts a sequence of tokens stands for: those of each token, in order.
pub open spec fn spec_expand(tokens: Seq<Token>) -> Seq<PartView>
    decreases tokens,
{
    if tokens.len() == 0 {
        Seq::empty()
    } else {
        spec_expand(tokens.drop_last()) + spec_expand_token(tokens.last())
    }
}

/// Why a token is rejected, if it is.
pub open spec fn spec_rejection_token(token: Token) -> Option<TemplateErrorView>
    decreases token,
{
    match token {
        Token::Directive(Directive::MacroCall(s)) => Some(
            TemplateErrorView::MacroOutsideBrackets(s@),
        ),
        Token::Directive(Directive::Unrecognized(s)) => Some(
            TemplateErrorView::UnrecognizedToken(s@),
        ),
        Token::Directive(Directive::Group(tokens)) => spec_rejection(tokens@),
        Token::Directive(Directive::Styled(_, _, tokens)) => spec_rejection(tokens@),
        _ => None,
    }
}

/// Why a sequence of tokens is rejected, if it is: the rejection of the first
/// token that has one.
pub open spec fn spec_rejection(tokens: Seq<Token>) -> Option<TemplateErrorView>
    decreases tokens,
{
    if tokens.len() == 0 {
        None
    } else {
        match spec_rejection(tokens.drop_last()) {
            Some(e) => Some(e),
            None => spec_rejection_token(tokens.last()),
        }
    }
}

/// A rejection among the first tokens is the rejection of the whole.
pub proof fn lemma_rejection_of_prefix(tokens: Seq<Token>, k: int)
    requires
        0 <= k <= tokens.len(),
        spec_rejection(tokens.take(k)) is Some,
    ensures
        spec_rejection(tokens) == spec_rejection(tokens.take(k)),
    decreases tokens.len() - k,
{
    if k == tokens.len() {
        assert(tokens.take(k) =~= tokens);
    } else {
        assert(tokens.take(k + 1).drop_last() =~= tokens.take(k));
        lemma_rejection_of_prefix(tokens, k + 1);
    }
}

/// Expansion goes token by token.
pub proof fn lemma_expand_step(tokens: Seq<Token>, k: int)
    requires
        0 <= k < tokens.len(),
    ensures
        spec_expand(tokens.take(k + 1)) == spec_expand(tokens.take(k)) + spec_expand_token(
            tokens[k],
        ),
        spec_rejection(tokens.take(k + 1)) == match spec_rejection(tokens.take(k)) {
            Some(e) => Some(e),
            None => spec_rejection_token(tokens[k]),
        },
{
    assert(tokens.take(k + 1).drop_last() =~= tokens.take(k));
}

/// Appends the literal `text` to `out`.
fn push_text(out: &mut Vec<Part>, text: &str)
    ensures
        part_views(final(out)@) == part_views(old(out)@).push(PartView::Text(text@)),
{
    out.push(Part::Literal(String::from_str(text)));
    proof {
        assert(part_views(out@) =~= part_views(old(out)@).push(PartView::Text(text@)));
    }
}

/// Appends the literal `text` to `out`.
fn push_string(out: &mut Vec<Part>, text: String)
    ensures
        part_views(final(out)@) == part_views(old(out)@).push(PartView::Text(text@)),
{
    out.push(Part::Literal(text));
    proof {
        assert(part_views(out@) =~= part_views(old(out)@).push(PartView::Text(text@)));
    }
}

/// Appends a slot to `out`.
fn push_slot(out: &mut Vec<Part>, slot: Slot)
    ensures
        part_views(final(out)@) == part_views(old(out)@).push(PartView::Slot(slot@)),
{
    let ghost view = slot@;
    out.push(Part::Slot(slot));
    proof {
        assert(part_views(out@) =~= part_views(old(out)@).push(PartView::Slot(view)));
    }
}

/// Appends what a number in a control sequence stands for.
fn push_count(out: &mut Vec<Part>, count: Count)
    ensures
        part_views(final(out)@) == part_views(old(out)@) + count_parts(count),
{
    match count {
        Count::Fixed(n) => {
            push_string(out, crate::number::unsigned_to_text(n as u64));
        },
        Count::Slot(slot) => {
            push_slot(out, slot);
        },
    }
    proof {
        assert(part_views(out@) =~= part_views(old(out)@) + count_parts(count));
    }
}

/// Appends what a position stands for.
fn push_coord(out: &mut Vec<Part>, coord: Coord)
    ensures
        part_views(final(out)@) == part_views(old(out)@) + coord_parts(coord),
{
    match coord {
        Coord::Start => {
            proof {
                reveal_strlit("1");
                assert("1"@ =~= seq!['1']);
            }
            push_text(out, "1");
            proof {
                assert(part_views(out@) =~= part_views(old(out)@) + coord_parts(coord));
            }
        },
        Coord::At(count) => {
            push_count(out, count);
        },
    }
}

/// Appends the parts that move the cursor to a column.
fn push_move_to_x(out: &mut Vec<Part>, x: Coord)
    ensures
        part_views(final(out)@) == part_views(old(out)@) + move_to_x_parts(x),
{
    proof {
        reveal_strlit("G");
        assert("G"@ =~= seq!['G']);
    }
    push_text(out, crate::ansi::start_text());
    push_coord(out, x);
    push_text(out, "G");
    proof {
        assert(part_views(out@) =~= part_views(old(out)@) + move_to_x_parts(x));
    }
}

/// Expands `token` at the end of `out`. If the token is rejected, `out` is
/// left with what was expanded before the rejection was met.
fn expand_token(token: Token, out: &mut Vec<Part>) -> (r: Result<(), TemplateError>)
    ensures
        match r {
            Ok(()) => spec_rejection_token(token) is None && part_views(final(out)@)
                == part_views(old(out)@) + spec_expand_token(token),
            Err(e) => spec_rejection_token(token) == Some(e@),
        },
    decreases token, 0nat,
{
    let ghost before = part_views(out@);
    match token {
        Token::Literal(s) => {
            push_string(out, s);
            proof {
                assert(part_views(out@) =~= before + spec_expand_token(token));
            }
            Ok(())
        },
        Token::Slot(slot) => {
            push_slot(out, slot);
            proof {
                assert(part_views(out@) =~= before + spec_expand_token(token));
            }
            Ok(())
        },
        Token::Iterate(iterate) => {
            let ghost view = iterate@;
            out.push(Part::Iterate(iterate));
            proof {
                assert(part_views(out@) =~= before + seq![PartView::Iterate(view)]);
            }
            Ok(())
        },
        Token::Directive(directive) => match directive {
            Directive::LineBreak => {
                proof {
                    reveal_strlit("\n");
                    assert("\n"@ =~= seq!['\n']);
                }
                push_text(out, "\n");
                proof {
                    assert(part_views(out@) =~= before + spec_expand_token(token));
                }
                Ok(())
            },
            Directive::Group(tokens) => expand_into(tokens, out),
            Directive::Styled(layer, color, tokens) => {
                push_string(out, crate::ansi::set_style_text(&layer, &Style::Color(color)));
                let ghost middle = part_views(out@);
                match expand_into(tokens, out) {
                    Ok(()) => {
                        push_string(out, crate::ansi::set_style_text(&layer, &Style::Reset));
                        proof {
                            assert(part_views(out@) =~= before + spec_expand_token(token));
                        }
                        Ok(())
                    },
                    Err(e) => Err(e),
                }
            },
            Directive::SetStyle(layer, style) => {
                push_string(out, crate::ansi::set_style_text(&layer, &style));
                proof {
                    assert(part_views(out@) =~= before + spec_expand_token(token));
                }
                Ok(())
            },
            Directive::CursorShow => {
                push_text(out, crate::ansi::cursor_show_text());
                proof {
                    assert(part_views(out@) =~= before + spec_expand_token(token));
                }
                Ok(())
            },
            Directive::CursorHide => {
                push_text(out, crate::ansi::cursor_hide_text());
                proof {
                    assert(part_views(out@) =~= before + spec_expand_token(token));
                }
                Ok(())
            },
            Directive::CursorMove(direction, count) => {
                push_text(out, crate::ansi::start_text());
                push_count(out, count);
                push_text(out, crate::ansi::direction_code_text(&direction));
                proof {
                    assert(part_views(out@) =~= before + spec_expand_token(token));
                }
                Ok(())
            },
            Directive::CursorMoveToX(x) => {
                push_move_to_x(out, x);
                Ok(())
            },
            Directive::CursorMoveToY(y) => {
                proof {
                    reveal_strlit("d");
                    assert("d"@ =~= seq!['d']);
                }
                push_text(out, crate::ansi::start_text());
                push_coord(out, y);
                push_text(out, "d");
                proof {
                    assert(part_views(out@) =~= before + spec_expand_token(token));
                }
                Ok(())
            },
            Directive::CursorMoveTo(x, y) => {
                proof {
                    reveal_strlit(";");
                    reveal_strlit("H");
                    assert(";"@ =~= seq![';']);
                    assert("H"@ =~= seq!['H']);
                }
                push_text(out, crate::ansi::start_text());
                push_coord(out, y);
                push_text(out, ";");
                push_coord(out, x);
                push_text(out, "H");
                proof {
                    assert(part_views(out@) =~= before + spec_expand_token(token));
                }
                Ok(())
            },
            Directive::EnterAltScreen => {
                push_text(out, crate::ansi::enter_alt_screen_text());
                proof {
                    assert(part_views(out@) =~= before + spec_expand_token(token));
                }
                Ok(())
            },
            Directive::LeaveAltScreen => {
                push_text(out, crate::ansi::leave_alt_screen_text());
                proof {
                    assert(part_views(out@) =~= before + spec_expand_token(token));
                }
                Ok(())
            },
            Directive::Clear(mode) => {
                push_text(out, crate::ansi::clear_text(&mode));
                proof {
                    assert(part_views(out@) =~= before + spec_expand_token(token));
                }
                Ok(())
            },
            Directive::ResetLine => {
                push_move_to_x(out, Coord::Start);
                push_text(out, crate::ansi::clear_text(&ClearMode::CurrentLine));
                proof {
                    assert(part_views(out@) =~= before + spec_expand_token(token));
                }
                Ok(())
            },
            Directive::LiteralCapture(s) => {
                push_string(out, s);
                proof {
                    assert(part_views(out@) =~= before + spec_expand_token(token));
                }
                Ok(())
            },
            Directive::MacroCall(s) => Err(TemplateError::MacroOutsideBrackets(s)),
            Directive::Unrecognized(s) => Err(TemplateError::UnrecognizedToken(s)),
        },
    }
}

/// Expands `tokens` at the end of `out`, token by token from the left, and
/// stops at the first token that is rejected.
fn expand_into(tokens: Vec<Token>, out: &mut Vec<Part>) -> (r: Result<(), TemplateError>)
    ensures
        match r {
            Ok(()) => spec_rejection(tokens@) is None && part_views(final(out)@) == part_views(
                old(out)@,
            ) + spec_expand(tokens@),
            Err(e) => spec_rejection(tokens@) == Some(e@),
        },
    decreases tokens, 1nat,
{
    let ghost all = tokens@;
    let ghost before = part_views(out@);
    proof {
        assert(all.take(0) =~= Seq::<Token>::empty());
        assert(before + spec_expand(all.take(0)) =~= before);
    }
    for token in it: tokens.into_iter()
        invariant
            it.seq() == all,
            all == tokens@,
            spec_rejection(all.take(it.index() as int)) is None,
            part_views(out@) == before + spec_expand(all.take(it.index() as int)),
    {
        let ghost k = it.index() as int;
        let ghost done = part_views(out@);
        proof {
            lemma_expand_step(all, k);
            assert(token == all[k]);
        }
        match expand_token(token, out) {
            Ok(()) => {
                proof {
                    assert(part_views(out@) =~= before + spec_expand(all.take(k + 1)));
                }
            },
            Err(e) => {
                proof {
                    lemma_rejection_of_prefix(all, k + 1);
                }
                return Err(e);
            },
        }
    }
    proof {
        assert(all.take(all.len() as int) =~= all);
    }
    Ok(())
}

/// Expands the directives of a template. What comes out holds literal text,
/// slots and iterations only, in the order of the template. A template with
/// a macro call outside brackets, or a token of no known shape, is rejected
/// with the first such fragment.
pub fn expand(tokens: Vec<Token>) -> (r: Result<Vec<Part>, TemplateError>)
    ensures
        match r {
            Ok(parts) => spec_rejection(tokens@) is None && part_views(parts@) == spec_expand(
                tokens@,
            ),
            Err(e) => spec_rejection(tokens@) == Some(e@),
        },
{
    let mut out: Vec<Part> = Vec::new();
    proof {
        assert(part_views(out@) =~= Seq::<PartView>::empty());
    }
    match expand_into(tokens, &mut out) {
        Ok(()) => {
            proof {
                assert(part_views(out@) =~= spec_expand(tokens@));
            }
            Ok(out)
        },
        Err(e) => Err(e),
    }
}

} // verus!
