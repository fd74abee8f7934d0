//! The lines of the prompts, as templates.

use vstd::prelude::*;
use vstd::string::StringExecFns;
use crate::ansi::{Color, Layer, Style};
use crate::template::{Directive, PartView, Slot, Token};
use crate::value::{Capture, RenderMode, Value, ValueView};

verus! {

/// What a line in a colour expands to: what stands before it, the colour,
/// the prefix, the content, the postfix, the reset, and what stands after.
pub open spec fn line_parts(
    color: Color,
    prefix: Seq<char>,
    content: Seq<PartView>,
    postfix: Seq<char>,
    start: Seq<PartView>,
    end: Seq<PartView>,
) -> Seq<PartView> {
    start + seq![PartView::Text(crate::ansi::set_style(Layer::Foreground, Style::Color(color)))]
        + seq![PartView::Text(prefix)] + content + seq![PartView::Text(postfix)] + seq![
        PartView::Text(crate::ansi::set_style(Layer::Foreground, Style::Reset)),
    ] + end
}

/// Why a line is rejected, if it is: as the first of what stands before it,
/// its content, and what stands after it.
pub open spec fn line_rejection(content: Seq<Token>, start: Seq<Token>, end: Seq<Token>) -> Option<
    crate::template::TemplateErrorView,
> {
    match crate::template::spec_rejection(start) {
        Some(e) => Some(e),
        None => match crate::template::spec_rejection(content) {
            Some(e) => Some(e),
            None => crate::template::spec_rejection(end),
        },
    }
}

/// The template of a line in a colour: `start`, then in the colour the
/// prefix, the content and the postfix, then `end`.
pub fn fmt_prompt_line(
    color: Color,
    prefix: &str,
    content: Vec<Token>,
    postfix: &str,
    start: Vec<Token>,
    end: Vec<Token>,
) -> (tokens: Vec<Token>)
    ensures
        crate::template::spec_expand(tokens@) == line_parts(
            color,
            prefix@,
            crate::template::spec_expand(content@),
            postfix@,
            crate::template::spec_expand(start@),
            crate::template::spec_expand(end@),
        ),
        crate::template::spec_rejection(tokens@) == line_rejection(content@, start@, end@),
{
    let mut content = content;
    let mut end = end;
    let ghost inner = content@;
    let ghost before = start@;
    let ghost after = end@;
    let first = Token::Literal(String::from_str(prefix));
    let last = Token::Literal(String::from_str(postfix));
    let ghost first_token = first;
    let ghost last_token = last;
    let mut body: Vec<Token> = Vec::new();
    body.push(first);
    body.append(&mut content);
    body.push(last);
    let ghost spanned = body@;
    let styled = Token::Directive(Directive::Styled(Layer::Foreground, color, body));
    let ghost styled_token = styled;
    let mut tokens = start;
    tokens.push(styled);
    tokens.append(&mut end);
    proof {
        assert(spanned =~= seq![first_token] + inner + seq![last_token]);
        crate::laws::lemma_expand_one(first_token);
        crate::laws::lemma_expand_one(last_token);
        crate::laws::lemma_expand_concat(seq![first_token], inner);
        crate::laws::lemma_expand_concat(seq![first_token] + inner, seq![last_token]);
        crate::laws::lemma_expand_one(styled_token);
        assert(tokens@ =~= before + seq![styled_token] + after);
        crate::laws::lemma_expand_concat(before, seq![styled_token]);
        crate::laws::lemma_expand_concat(before + seq![styled_token], after);
        assert(crate::template::spec_expand(tokens@) =~= line_parts(
            color,
            prefix@,
            crate::template::spec_expand(inner),
            postfix@,
            crate::template::spec_expand(before),
            crate::template::spec_expand(after),
        ));
    }
    tokens
}

/// The template of an error line: in red, `error: ` and the error.
pub fn fmt_prompt_error(error: Vec<Token>, start: Vec<Token>, end: Vec<Token>) -> (tokens: Vec<
    Token,
>)
    ensures
        crate::template::spec_expand(tokens@) == line_parts(
            Color::Red,
            super::consts::ERROR_LINE_PREFIX@,
            crate::template::spec_expand(error@),
            Seq::empty(),
            crate::template::spec_expand(start@),
            crate::template::spec_expand(end@),
        ),
        crate::template::spec_rejection(tokens@) == line_rejection(error@, start@, end@),
{
    proof {
        reveal_strlit("");
        assert(""@ =~= Seq::<char>::empty());
    }
    fmt_prompt_line(Color::Red, super::consts::ERROR_LINE_PREFIX, error, "", start, end)
}

/// The template of a question line: in green, `? ` and the question.
pub fn fmt_prompt_question(question: Vec<Token>, start: Vec<Token>, end: Vec<Token>) -> (tokens:
    Vec<Token>)
    ensures
        crate::template::spec_expand(tokens@) == line_parts(
            Color::Green,
            super::consts::QUESTION_LINE_PREFIX@,
            crate::template::spec_expand(question@),
            Seq::empty(),
            crate::template::spec_expand(start@),
            crate::template::spec_expand(end@),
        ),
        crate::template::spec_rejection(tokens@) == line_rejection(question@, start@, end@),
{
    proof {
        reveal_strlit("");
        assert(""@ =~= Seq::<char>::empty());
    }
    fmt_prompt_line(Color::Green, super::consts::QUESTION_LINE_PREFIX, question, "", start, end)
}

/// The template of a help line: in cyan, the help in square brackets.
pub fn fmt_prompt_help(help: Vec<Token>, start: Vec<Token>, end: Vec<Token>) -> (tokens: Vec<Token>)
    ensures
        crate::template::spec_expand(tokens@) == line_parts(
            Color::Cyan,
            super::consts::HELP_LINE_PREFIX@,
            crate::template::spec_expand(help@),
            super::consts::HELP_LINE_POSTFIX@,
            crate::template::spec_expand(start@),
            crate::template::spec_expand(end@),
        ),
        crate::template::spec_rejection(tokens@) == line_rejection(help@, start@, end@),
{
    fmt_prompt_line(
        Color::Cyan,
        super::consts::HELP_LINE_PREFIX,
        help,
        super::consts::HELP_LINE_POSTFIX,
        start,
        end,
    )
}

/// A slot that shows the first line of `text` as it stands.
pub open spec fn first_line_part(text: Seq<char>) -> PartView {
    PartView::Slot(
        crate::template::SlotView {
            value: ValueView::Text(crate::utils::spec_first_line(text)),
            mode: RenderMode::Plain,
            capture: Capture::ByValue,
        },
    )
}

/// A slot that shows the first line of `text` as it stands.
pub fn first_line_slot(text: &str) -> (token: Token)
    ensures
        crate::template::spec_expand_token(token) == seq![first_line_part(text@)],
        crate::template::spec_rejection_token(token) is None,
{
    let line = crate::utils::first_line(text);
    Token::Slot(
        Slot {
            value: Value::Text(String::from_str(line)),
            mode: RenderMode::Plain,
            capture: Capture::ByValue,
        },
    )
}

/// The template of a choice that is chosen: in cyan, `> ` and the first line
/// of the choice.
pub fn fmt_prompt_chosen_choice(choice: &str, start: Vec<Token>, end: Vec<Token>) -> (tokens: Vec<
    Token,
>)
    ensures
        crate::template::spec_expand(tokens@) == line_parts(
            Color::Cyan,
            super::consts::CHOSEN_CHOICE_LINE_PREFIX@,
            seq![first_line_part(choice@)],
            Seq::empty(),
            crate::template::spec_expand(start@),
            crate::template::spec_expand(end@),
        ),
        crate::template::spec_rejection(tokens@) == line_rejection(Seq::empty(), start@, end@),
{
    proof {
        reveal_strlit("");
        assert(""@ =~= Seq::<char>::empty());
    }
    let slot = first_line_slot(choice);
    let ghost slot_token = slot;
    let mut content: Vec<Token> = Vec::new();
    content.push(slot);
    proof {
        crate::laws::lemma_expand_one(slot_token);
        assert(content@ =~= seq![slot_token]);
    }
    fmt_prompt_line(
        Color::Cyan,
        super::consts::CHOSEN_CHOICE_LINE_PREFIX,
        content,
        "",
        start,
        end,
    )
}

/// The template of a choice that is not chosen: two spaces and the first
/// line of the choice.
pub fn fmt_prompt_unchosen_choice(choice: &str, start: Vec<Token>, end: Vec<Token>) -> (tokens:
    Vec<Token>)
    ensures
        crate::template::spec_expand(tokens@) == crate::template::spec_expand(start@) + seq![
            PartView::Text(super::consts::UNCHOSEN_CHOICE_LINE_PREFIX@),
            first_line_part(choice@),
        ] + crate::template::spec_expand(end@),
        crate::template::spec_rejection(tokens@) == line_rejection(Seq::empty(), start@, end@),
{
    let mut end = end;
    let ghost before = start@;
    let ghost after = end@;
    let prefix = Token::Literal(String::from_str(super::consts::UNCHOSEN_CHOICE_LINE_PREFIX));
    let ghost prefix_token = prefix;
    let slot = first_line_slot(choice);
    let ghost slot_token = slot;
    let mut tokens = start;
    tokens.push(prefix);
    tokens.push(slot);
    tokens.append(&mut end);
    proof {
        let middle = seq![prefix_token, slot_token];
        assert(tokens@ =~= before + middle + after);
        crate::laws::lemma_expand_one(prefix_token);
        crate::laws::lemma_expand_one(slot_token);
        crate::laws::lemma_expand_concat(seq![prefix_token], seq![slot_token]);
        assert(seq![prefix_token] + seq![slot_token] =~= middle);
        crate::laws::lemma_expand_concat(before, middle);
        crate::laws::lemma_expand_concat(before + middle, after);
        assert(crate::template::spec_expand(middle) =~= seq![
            PartView::Text(super::consts::UNCHOSEN_CHOICE_LINE_PREFIX@),
            first_line_part(choice@),
        ]);
    }
    tokens
}

} // verus!
