//! The surface syntax of a format call: where the output goes and how its
//! failures are taken, and after `=>` the literals and slots of the template.
//!
//! The syntax is read off a tree of tokens. Whether a run of tokens is an
//! expression of the language is not decided here: the parser of the
//! language is asked, and nothing is taken for granted of its answer. Each
//! reader therefore comes in two forms. The one named `parse_with` takes the
//! parser's answer as an argument and says exactly what is read for each
//! answer; the one named `parse` asks the parser and reads with what it
//! said.

use vstd::prelude::*;
use vstd::string::StringExecFns;
use crate::terminal::prompt::unsigned_int::Digit;
use crate::value::RenderMode;

verus! {

/// What encloses a group of tokens.
#[derive(Clone, Copy, Debug, PartialEq, Eq, Structural)]
pub enum Delimiter {
    Parenthesis,
    Brace,
    Bracket,
}

/// One token of source text, or a group of tokens in brackets.
#[derive(Debug)]
pub enum SyntaxToken {
    /// One character of punctuation, and whether it is joint: whether what
    /// follows it stands right behind it, as the `>` of `=>` does.
    Punct(char, bool),
    Ident(String),
    Literal(String),
    Group(Delimiter, Vec<SyntaxToken>),
}

/// The bracket that opens a group.
pub open spec fn open_text(delimiter: Delimiter) -> Seq<char> {
    match delimiter {
        Delimiter::Parenthesis => seq!['('],
        Delimiter::Brace => seq!['{'],
        Delimiter::Bracket => seq!['['],
    }
}

/// The bracket that closes a group.
pub open spec fn close_text(delimiter: Delimiter) -> Seq<char> {
    match delimiter {
        Delimiter::Parenthesis => seq![')'],
        Delimiter::Brace => seq!['}'],
        Delimiter::Bracket => seq![']'],
    }
}

/// The source text of a token.
pub open spec fn token_text(token: SyntaxToken) -> Seq<char>
    decreases token,
{
    match token {
        SyntaxToken::Punct(c, _) => seq![c],
        SyntaxToken::Ident(s) => s@,
        SyntaxToken::Literal(s) => s@,
        SyntaxToken::Group(delimiter, tokens) => open_text(delimiter) + tokens_text(tokens@)
            + close_text(delimiter),
    }
}

/// Whether the token is joint punctuation.
pub open spec fn is_joint(token: SyntaxToken) -> bool {
    token matches SyntaxToken::Punct(_, joint) && joint
}

/// What stands between a token and the one after it: nothing after joint
/// punctuation, a space after anything else.
pub open spec fn gap_after(token: SyntaxToken) -> Seq<char> {
    if is_joint(token) {
        Seq::empty()
    } else {
        seq![' ']
    }
}

/// The source text of tokens: the text of each, and between two of them
/// what stands after the first.
pub open spec fn tokens_text(tokens: Seq<SyntaxToken>) -> Seq<char>
    decreases tokens,
{
    if tokens.len() == 0 {
        Seq::empty()
    } else if tokens.len() == 1 {
        token_text(tokens.last())
    } else {
        tokens_text(tokens.drop_last()) + gap_after(tokens[tokens.len() - 2]) + token_text(
            tokens.last(),
        )
    }
}

/// `syn::parse_str::<syn::Expr>`: whether the whole of `text` parses as one
/// expression. Nothing is claimed of the answer.
#[verifier::external_body]
fn syn_is_expression(text: &str) -> (accepted: bool) {
    syn::parse_str::<syn::Expr>(text).is_ok()
}

/// `syn::parse_str::<syn::ExprLit>`: whether the whole of `text` parses as
/// one literal. Nothing is claimed of the answer.
#[verifier::external_body]
fn syn_is_literal(text: &str) -> (accepted: bool) {
    syn::parse_str::<syn::ExprLit>(text).is_ok()
}

/// Whether the token is joint punctuation.
fn joins_next(token: &SyntaxToken) -> (b: bool)
    ensures
        b == is_joint(*token),
{
    match token {
        SyntaxToken::Punct(_, joint) => *joint,
        _ => false,
    }
}

/// Appends the source text of a token.
fn push_token_text(token: &SyntaxToken, out: &mut String)
    ensures
        final(out)@ == old(out)@ + token_text(*token),
    decreases token, 0nat,
{
    match token {
        SyntaxToken::Punct(c, _) => {
            let text = crate::write::char_to_string(*c);
            out.append(text.as_str());
        },
        SyntaxToken::Ident(s) => {
            out.append(s.as_str());
        },
        SyntaxToken::Literal(s) => {
            out.append(s.as_str());
        },
        SyntaxToken::Group(delimiter, tokens) => {
            proof {
                reveal_strlit("(");
                reveal_strlit(")");
                reveal_strlit("{");
                reveal_strlit("}");
                reveal_strlit("[");
                reveal_strlit("]");
            }
            let (open, close) = match delimiter {
                Delimiter::Parenthesis => ("(", ")"),
                Delimiter::Brace => ("{", "}"),
                Delimiter::Bracket => ("[", "]"),
            };
            assert(open@ =~= open_text(*delimiter));
            assert(close@ =~= close_text(*delimiter));
            out.append(open);
            push_range_text(tokens, 0, tokens.len(), out);
            assert(tokens@.subrange(0, tokens@.len() as int) =~= tokens@);
            out.append(close);
            proof {
                assert(out@ =~= old(out)@ + token_text(*token));
            }
        },
    }
}

/// Appends the source text of the tokens from `from` up to `to`.
fn push_range_text(tokens: &Vec<SyntaxToken>, from: usize, to: usize, out: &mut String)
    requires
        from <= to <= tokens.len(),
    ensures
        final(out)@ == old(out)@ + tokens_text(tokens@.subrange(from as int, to as int)),
    decreases tokens, 1nat,
{
    let ghost before = out@;
    let mut i: usize = from;
    proof {
        assert(tokens@.subrange(from as int, from as int) =~= Seq::<SyntaxToken>::empty());
        assert(before + tokens_text(tokens@.subrange(from as int, from as int)) =~= before);
    }
    while i < to
        invariant
            from <= i <= to <= tokens.len(),
            out@ == before + tokens_text(tokens@.subrange(from as int, i as int)),
        decreases to - i,
    {
        let ghost done = tokens@.subrange(from as int, i as int);
        let ghost next = tokens@.subrange(from as int, i + 1);
        proof {
            assert(next.drop_last() =~= done);
            assert(next.last() == tokens@[i as int]);
        }
        if i > from {
            proof {
                assert(next[next.len() - 2] == tokens@[i - 1]);
            }
            if !joins_next(&tokens[i - 1]) {
                proof {
                    reveal_strlit(" ");
                    assert(" "@ =~= seq![' ']);
                }
                out.append(" ");
            }
        }
        push_token_text(&tokens[i], out);
        proof {
            assert(out@ =~= before + tokens_text(next));
        }
        i = i + 1;
    }
}

/// The source text of the tokens from `from` up to `to`.
fn range_to_text(tokens: &Vec<SyntaxToken>, from: usize, to: usize) -> (s: String)
    requires
        from <= to <= tokens.len(),
    ensures
        s@ == tokens_text(tokens@.subrange(from as int, to as int)),
{
    let mut s = String::new();
    push_range_text(tokens, from, to, &mut s);
    proof {
        assert(Seq::<char>::empty() + tokens_text(tokens@.subrange(from as int, to as int))
            =~= tokens_text(tokens@.subrange(from as int, to as int)));
    }
    s
}

/// The source text of the tokens.
pub fn tokens_to_text(tokens: &Vec<SyntaxToken>) -> (s: String)
    ensures
        s@ == tokens_text(tokens@),
{
    proof {
        assert(tokens@.subrange(0, tokens@.len() as int) =~= tokens@);
    }
    range_to_text(tokens, 0, tokens.len())
}

/// Whether the token is the punctuation `c`, joint or not.
pub open spec fn is_punct(token: SyntaxToken, c: char) -> bool {
    token matches SyntaxToken::Punct(p, _) && p == c
}

/// Whether the token is the word `name`.
pub open spec fn is_ident(token: SyntaxToken, name: Seq<char>) -> bool {
    token matches SyntaxToken::Ident(s) && s@ == name
}

/// Whether the token at `at` is the punctuation `c`.
pub open spec fn punct_at(tokens: Seq<SyntaxToken>, at: int, c: char) -> bool {
    0 <= at < tokens.len() && is_punct(tokens[at], c)
}

/// Whether the token at `at` is the word `name`.
pub open spec fn ident_at(tokens: Seq<SyntaxToken>, at: int, name: Seq<char>) -> bool {
    0 <= at < tokens.len() && is_ident(tokens[at], name)
}

/// Whether the token at `at` is the punctuation `c`.
fn has_punct(tokens: &Vec<SyntaxToken>, at: usize, c: char) -> (b: bool)
    ensures
        b == punct_at(tokens@, at as int, c),
        b ==> at < usize::MAX,
{
    if at < tokens.len() {
        match &tokens[at] {
            SyntaxToken::Punct(p, _) => *p == c,
            _ => false,
        }
    } else {
        false
    }
}

/// Whether the token at `at` is the word `name`.
fn has_ident(tokens: &Vec<SyntaxToken>, at: usize, name: &str) -> (b: bool)
    ensures
        b == ident_at(tokens@, at as int, name@),
        b ==> at < usize::MAX,
{
    if at < tokens.len() {
        match &tokens[at] {
            SyntaxToken::Ident(s) => {
                let wanted = String::from_str(name);
                *s == wanted
            },
            _ => false,
        }
    } else {
        false
    }
}

/// The standard output or the standard error of the process, locked or not.
#[derive(Clone, Copy, Debug, PartialEq, Eq, Structural)]
pub struct WriterStd {
    pub err: bool,
    pub lock: bool,
}

/// Where the output goes.
#[derive(Debug)]
pub enum Writer {
    /// To what this expression gives; the text is the expression.
    Expr(String),
    Std(WriterStd),
}

/// A [`Writer`] as contracts see it.
pub enum WriterView {
    Expr(Seq<char>),
    Std(WriterStd),
}

impl View for Writer {
    type V = WriterView;

    open spec fn view(&self) -> WriterView {
        match self {
            Writer::Expr(text) => WriterView::Expr(text@),
            Writer::Std(std) => WriterView::Std(*std),
        }
    }
}

/// How a failure of the output is taken.
#[derive(Clone, Copy, Debug, PartialEq, Eq, Structural)]
pub enum Fallibility {
    /// It is handed to the caller.
    Fallible,
    /// There can be none.
    Infallible,
    /// It is dropped.
    Ignore,
}

impl Default for Fallibility {
    fn default() -> (r: Self)
        ensures
            r == Fallibility::Ignore,
    {
        Fallibility::Ignore
    }
}

/// What follows the writer after a semicolon.
#[derive(Clone, Copy, Debug, PartialEq, Eq, Structural)]
pub struct WriterArgs {
    pub fallibility: Fallibility,
}

impl Default for WriterArgs {
    fn default() -> (r: Self)
        ensures
            r.fallibility == Fallibility::Ignore,
    {
        WriterArgs { fallibility: Fallibility::Ignore }
    }
}

/// A writer with what follows it.
#[derive(Debug)]
pub struct FmtModeWriter {
    pub writer: Writer,
    pub writer_args: WriterArgs,
}

/// What a format call makes: output to a writer, or a string.
#[derive(Debug)]
pub enum FmtMode {
    Writer(FmtModeWriter),
    String,
}

/// A [`FmtMode`] as contracts see it.
pub enum FmtModeView {
    Writer(WriterView, Fallibility),
    String,
}

impl View for FmtMode {
    type V = FmtModeView;

    open spec fn view(&self) -> FmtModeView {
        match self {
            FmtMode::Writer(w) => FmtModeView::Writer(w.writer@, w.writer_args.fallibility),
            FmtMode::String => FmtModeView::String,
        }
    }
}

/// Why a format call cannot be read.
#[derive(Clone, Copy, Debug, PartialEq, Eq, Structural)]
pub enum SyntaxError {
    /// The call does not start with a group in round brackets.
    ExpectedMode,
    /// What the round brackets hold is no writer with what may follow it.
    BadMode,
    /// No `=>` follows the round brackets.
    ExpectedArrow,
    /// The token at this place after the `=>` is neither a literal nor a
    /// slot.
    BadToken(usize),
}

/// The standard writer that starts at `at`, and where it ends: `#`, then
/// `err` if it is there, then `lock` if it is there.
pub open spec fn spec_writer_std(tokens: Seq<SyntaxToken>, at: int) -> Option<(WriterStd, int)> {
    if punct_at(tokens, at, '#') {
        let err = ident_at(tokens, at + 1, "err"@);
        let next = if err {
            at + 2
        } else {
            at + 1
        };
        let lock = ident_at(tokens, next, "lock"@);
        Some(
            (
                WriterStd { err, lock },
                if lock {
                    next + 1
                } else {
                    next
                },
            ),
        )
    } else {
        None
    }
}

/// How failures are taken according to the token at `at`, and where that
/// ends: `?` hands them on, `!` says there are none, anything else drops
/// them and is not taken.
pub open spec fn spec_fallibility(tokens: Seq<SyntaxToken>, at: int) -> (Fallibility, int) {
    if punct_at(tokens, at, '?') {
        (Fallibility::Fallible, at + 1)
    } else if punct_at(tokens, at, '!') {
        (Fallibility::Infallible, at + 1)
    } else {
        (Fallibility::Ignore, at)
    }
}

/// What follows a writer, if a semicolon stands at `at`, and where it ends.
pub open spec fn spec_writer_args(tokens: Seq<SyntaxToken>, at: int) -> Option<(WriterArgs, int)> {
    if punct_at(tokens, at, ';') {
        let (fallibility, end) = spec_fallibility(tokens, at + 1);
        Some((WriterArgs { fallibility }, end))
    } else {
        None
    }
}

/// The place of the first semicolon from `at` on, or the end if there is
/// none.
pub open spec fn spec_semicolon(tokens: Seq<SyntaxToken>, at: int) -> int
    decreases tokens.len() - at,
{
    if at < 0 || at >= tokens.len() {
        tokens.len() as int
    } else if is_punct(tokens[at], ';') {
        at
    } else {
        spec_semicolon(tokens, at + 1)
    }
}

/// The run of tokens that starts at `at` and goes up to the first semicolon
/// or the end, if a token stands in it: its text, and where it ends.
pub open spec fn spec_expression_run(tokens: Seq<SyntaxToken>, at: int) -> Option<
    (Seq<char>, int),
> {
    let end = spec_semicolon(tokens, at);
    if 0 <= at < end {
        Some((tokens_text(tokens.subrange(at, end)), end))
    } else {
        None
    }
}

/// The expression that starts at `at`, and where it ends: the run of tokens
/// there, where the parser of the language has accepted its text.
pub open spec fn spec_expression(tokens: Seq<SyntaxToken>, at: int, accepted: bool) -> Option<
    (Seq<char>, int),
> {
    if accepted {
        spec_expression_run(tokens, at)
    } else {
        None
    }
}

/// The writer that starts at `at`, and where it ends: a standard writer, or
/// else an expression, where the parser has accepted it.
pub open spec fn spec_writer(tokens: Seq<SyntaxToken>, at: int, accepted: bool) -> Option<
    (WriterView, int),
> {
    match spec_writer_std(tokens, at) {
        Some((std, end)) => Some((WriterView::Std(std), end)),
        None => match spec_expression(tokens, at, accepted) {
            Some((text, end)) => Some((WriterView::Expr(text), end)),
            None => None,
        },
    }
}

/// The writer that `content` is, with how its failures are taken: a writer,
/// then what may follow it, and nothing after.
pub open spec fn spec_mode_writer(content: Seq<SyntaxToken>, accepted: bool) -> Result<
    (WriterView, Fallibility),
    SyntaxError,
> {
    match spec_writer(content, 0, accepted) {
        Some((writer, end)) => {
            let (fallibility, last) = match spec_writer_args(content, end) {
                Some((args, last)) => (args.fallibility, last),
                None => (Fallibility::Ignore, end),
            };
            if last == content.len() {
                Ok((writer, fallibility))
            } else {
                Err(SyntaxError::BadMode)
            }
        },
        None => Err(SyntaxError::BadMode),
    }
}

/// What round brackets that hold `content` say: nothing in them asks for a
/// string; a writer with what may follow it, and nothing after, asks for
/// output to that writer.
pub open spec fn spec_mode(content: Seq<SyntaxToken>, accepted: bool) -> Result<
    FmtModeView,
    SyntaxError,
> {
    if content.len() == 0 {
        Ok(FmtModeView::String)
    } else {
        match spec_mode_writer(content, accepted) {
            Ok((writer, fallibility)) => Ok(FmtModeView::Writer(writer, fallibility)),
            Err(e) => Err(e),
        }
    }
}

/// Whether what was read at a place is what `expected` says: the same text
/// with the same end, or nothing.
pub open spec fn text_read_as(r: Option<(String, usize)>, expected: Option<(Seq<char>, int)>) -> bool {
    match r {
        Some((text, end)) => expected == Some((text@, end as int)),
        None => expected is None,
    }
}

/// Whether the writer that was read is what `expected` says.
pub open spec fn writer_read_as(
    r: Option<(Writer, usize)>,
    expected: Option<(WriterView, int)>,
) -> bool {
    match r {
        Some((writer, end)) => expected == Some((writer@, end as int)),
        None => expected is None,
    }
}

/// Whether the writer with what follows it that was read, or the error, is
/// what `expected` says.
pub open spec fn mode_writer_read_as(
    r: Result<FmtModeWriter, SyntaxError>,
    expected: Result<(WriterView, Fallibility), SyntaxError>,
) -> bool {
    match r {
        Ok(mode) => expected == Ok::<(WriterView, Fallibility), SyntaxError>(
            (mode.writer@, mode.writer_args.fallibility),
        ),
        Err(e) => expected == Err::<(WriterView, Fallibility), SyntaxError>(e),
    }
}

/// Whether the mode that was read, or the error, is what `expected` says.
pub open spec fn mode_read_as(
    r: Result<FmtMode, SyntaxError>,
    expected: Result<FmtModeView, SyntaxError>,
) -> bool {
    match r {
        Ok(mode) => expected == Ok::<FmtModeView, SyntaxError>(mode@),
        Err(e) => expected == Err::<FmtModeView, SyntaxError>(e),
    }
}

/// The semicolon lies at or after `at`, within the tokens, and no token
/// before it from `at` on is one.
pub proof fn lemma_semicolon(tokens: Seq<SyntaxToken>, at: int)
    requires
        0 <= at <= tokens.len(),
    ensures
        at <= spec_semicolon(tokens, at) <= tokens.len(),
        forall|i: int| at <= i < spec_semicolon(tokens, at) ==> !is_punct(#[trigger] tokens[i], ';'),
        spec_semicolon(tokens, at) < tokens.len() ==> is_punct(
            tokens[spec_semicolon(tokens, at)],
            ';',
        ),
    decreases tokens.len() - at,
{
    if at < tokens.len() && !is_punct(tokens[at], ';') {
        lemma_semicolon(tokens, at + 1);
    }
}

/// A place with a semicolon, or the end, with no semicolon before it from
/// `at` on, is the place of the first semicolon.
pub proof fn lemma_semicolon_is(tokens: Seq<SyntaxToken>, at: int, end: int)
    requires
        0 <= at <= end <= tokens.len(),
        forall|i: int| at <= i < end ==> !is_punct(#[trigger] tokens[i], ';'),
        end < tokens.len() ==> is_punct(tokens[end], ';'),
    ensures
        spec_semicolon(tokens, at) == end,
    decreases end - at,
{
    if at < end {
        assert(!is_punct(tokens[at], ';'));
        lemma_semicolon_is(tokens, at + 1, end);
    }
}

impl WriterStd {
    /// Reads a standard writer at `at`.
    pub fn parse(tokens: &Vec<SyntaxToken>, at: usize) -> (r: Option<(WriterStd, usize)>)
        ensures
            r is Some <==> spec_writer_std(tokens@, at as int) is Some,
            r matches Some((std, end)) ==> spec_writer_std(tokens@, at as int) == Some(
                (std, end as int),
            ) && at < end <= tokens.len(),
    {
        if !has_punct(tokens, at, '#') {
            return None;
        }
        let err = has_ident(tokens, at + 1, "err");
        let next = if err {
            at + 2
        } else {
            at + 1
        };
        let lock = has_ident(tokens, next, "lock");
        let end = if lock {
            next + 1
        } else {
            next
        };
        Some((WriterStd { err, lock }, end))
    }
}

impl Fallibility {
    /// Reads how failures are taken at `at`.
    pub fn parse(tokens: &Vec<SyntaxToken>, at: usize) -> (r: (Fallibility, usize))
        ensures
            (r.0, r.1 as int) == spec_fallibility(tokens@, at as int),
            at <= tokens.len() ==> at <= r.1 <= tokens.len(),
    {
        if has_punct(tokens, at, '?') {
            (Fallibility::Fallible, at + 1)
        } else if has_punct(tokens, at, '!') {
            (Fallibility::Infallible, at + 1)
        } else {
            (Fallibility::Ignore, at)
        }
    }
}

impl WriterArgs {
    /// Reads what follows a writer at `at`.
    pub fn parse(tokens: &Vec<SyntaxToken>, at: usize) -> (r: Option<(WriterArgs, usize)>)
        ensures
            r is Some <==> spec_writer_args(tokens@, at as int) is Some,
            r matches Some((args, end)) ==> spec_writer_args(tokens@, at as int) == Some(
                (args, end as int),
            ) && at < end <= tokens.len(),
    {
        if !has_punct(tokens, at, ';') {
            return None;
        }
        let (fallibility, end) = Fallibility::parse(tokens, at + 1);
        Some((WriterArgs { fallibility }, end))
    }
}

/// The place of the first semicolon from `at` on.
pub fn find_semicolon(tokens: &Vec<SyntaxToken>, at: usize) -> (end: usize)
    ensures
        end == spec_semicolon(tokens@, at as int),
        end <= tokens.len(),
        at <= tokens.len() ==> at <= end,
{
    if at >= tokens.len() {
        return tokens.len();
    }
    let mut end = at;
    while end < tokens.len() && !has_punct(tokens, end, ';')
        invariant
            at <= end <= tokens.len(),
            forall|i: int| at <= i < end ==> !is_punct(#[trigger] tokens@[i], ';'),
        decreases tokens.len() - end,
    {
        end = end + 1;
    }
    proof {
        lemma_semicolon_is(tokens@, at as int, end as int);
    }
    end
}

/// The run of tokens that starts at `at` and goes up to the first semicolon
/// or the end, if a token stands in it.
pub fn expression_run(tokens: &Vec<SyntaxToken>, at: usize) -> (r: Option<(String, usize)>)
    ensures
        text_read_as(r, spec_expression_run(tokens@, at as int)),
        r matches Some((_, end)) ==> at < end <= tokens.len(),
{
    let end = find_semicolon(tokens, at);
    if end <= at {
        return None;
    }
    let text = range_to_text(tokens, at, end);
    Some((text, end))
}

/// What the parser says of the run of tokens that starts at `at`; no, where
/// no token stands in it.
fn ask_expression(tokens: &Vec<SyntaxToken>, at: usize) -> (accepted: bool) {
    match expression_run(tokens, at) {
        Some((text, _)) => syn_is_expression(text.as_str()),
        None => false,
    }
}

/// What the parser says of the writer that starts at `at`, where it is asked:
/// a standard writer is none of its business.
fn ask_writer(tokens: &Vec<SyntaxToken>, at: usize) -> (accepted: bool) {
    if has_punct(tokens, at, '#') {
        false
    } else {
        ask_expression(tokens, at)
    }
}

/// Reads the expression that starts at `at`, given what the parser said of
/// the run of tokens there.
pub fn parse_expression_with(tokens: &Vec<SyntaxToken>, at: usize, accepted: bool) -> (r: Option<
    (String, usize),
>)
    ensures
        text_read_as(r, spec_expression(tokens@, at as int, accepted)),
        r matches Some((_, end)) ==> at < end <= tokens.len(),
{
    if accepted {
        expression_run(tokens, at)
    } else {
        None
    }
}

/// Reads the expression that starts at `at`: the run of tokens there, if the
/// parser accepts it.
pub fn parse_expression(tokens: &Vec<SyntaxToken>, at: usize) -> (r: Option<(String, usize)>)
    ensures
        exists|accepted: bool|
            text_read_as(r, #[trigger] spec_expression(tokens@, at as int, accepted)),
        r matches Some((_, end)) ==> at < end <= tokens.len(),
{
    let accepted = ask_expression(tokens, at);
    parse_expression_with(tokens, at, accepted)
}

impl Writer {
    /// Reads a writer at `at`, given what the parser said of the run of
    /// tokens there.
    pub fn parse_with(tokens: &Vec<SyntaxToken>, at: usize, accepted: bool) -> (r: Option<
        (Writer, usize),
    >)
        ensures
            writer_read_as(r, spec_writer(tokens@, at as int, accepted)),
            r matches Some((_, end)) ==> at < end <= tokens.len(),
    {
        match WriterStd::parse(tokens, at) {
            Some((std, end)) => Some((Writer::Std(std), end)),
            None => match parse_expression_with(tokens, at, accepted) {
                Some((text, end)) => Some((Writer::Expr(text), end)),
                None => None,
            },
        }
    }

    /// Reads a writer at `at`: a standard writer, or else the run of tokens
    /// there, if the parser accepts it.
    pub fn parse(tokens: &Vec<SyntaxToken>, at: usize) -> (r: Option<(Writer, usize)>)
        ensures
            exists|accepted: bool|
                writer_read_as(r, #[trigger] spec_writer(tokens@, at as int, accepted)),
            r matches Some((_, end)) ==> at < end <= tokens.len(),
    {
        let accepted = ask_writer(tokens, at);
        Writer::parse_with(tokens, at, accepted)
    }
}

impl FmtModeWriter {
    /// Reads a writer with what may follow it, which must be all there is,
    /// given what the parser said of the writer.
    pub fn parse_with(content: &Vec<SyntaxToken>, accepted: bool) -> (r: Result<
        FmtModeWriter,
        SyntaxError,
    >)
        ensures
            mode_writer_read_as(r, spec_mode_writer(content@, accepted)),
    {
        match Writer::parse_with(content, 0, accepted) {
            Some((writer, end)) => {
                let (writer_args, last) = match WriterArgs::parse(content, end) {
                    Some((args, last)) => (args, last),
                    None => (WriterArgs { fallibility: Fallibility::Ignore }, end),
                };
                if last == content.len() {
                    Ok(FmtModeWriter { writer, writer_args })
                } else {
                    Err(SyntaxError::BadMode)
                }
            },
            None => Err(SyntaxError::BadMode),
        }
    }

    /// Reads a writer with what may follow it, which must be all there is.
    pub fn parse(content: &Vec<SyntaxToken>) -> (r: Result<FmtModeWriter, SyntaxError>)
        ensures
            exists|accepted: bool|
                mode_writer_read_as(r, #[trigger] spec_mode_writer(content@, accepted)),
    {
        let accepted = ask_writer(content, 0);
        FmtModeWriter::parse_with(content, accepted)
    }
}

impl FmtMode {
    /// Reads what the round brackets that hold `content` say, given what the
    /// parser said of the writer in them.
    pub fn parse_with(content: &Vec<SyntaxToken>, accepted: bool) -> (r: Result<
        FmtMode,
        SyntaxError,
    >)
        ensures
            mode_read_as(r, spec_mode(content@, accepted)),
    {
        if content.len() == 0 {
            Ok(FmtMode::String)
        } else {
            match FmtModeWriter::parse_with(content, accepted) {
                Ok(writer) => Ok(FmtMode::Writer(writer)),
                Err(e) => Err(e),
            }
        }
    }

    /// Reads what the round brackets that hold `content` say.
    pub fn parse(content: &Vec<SyntaxToken>) -> (r: Result<FmtMode, SyntaxError>)
        ensures
            exists|accepted: bool| mode_read_as(r, #[trigger] spec_mode(content@, accepted)),
    {
        let accepted = ask_writer(content, 0);
        FmtMode::parse_with(content, accepted)
    }
}

/// A literal of a template: the text of the expression that gives it.
#[derive(Debug)]
pub struct FmtTokenLit(pub String);

/// How the expression of a slot is captured.
#[derive(Clone, Copy, Debug, PartialEq, Eq, Structural)]
pub enum ExprMode {
    /// Nothing is said of it.
    Unspecified,
}

impl Default for ExprMode {
    fn default() -> (r: Self)
        ensures
            r == ExprMode::Unspecified,
    {
        ExprMode::Unspecified
    }
}

/// What follows the expression of a slot after a semicolon.
#[derive(Clone, Copy, Debug, PartialEq, Eq)]
pub struct FmtTokenExprArgs {
    pub expr_mode: ExprMode,
    pub render_mode: RenderMode,
}

impl Default for FmtTokenExprArgs {
    fn default() -> (r: Self)
        ensures
            r.expr_mode == ExprMode::Unspecified,
            r.render_mode == RenderMode::Plain,
    {
        FmtTokenExprArgs { expr_mode: ExprMode::Unspecified, render_mode: RenderMode::Plain }
    }
}

/// A slot of a template: the text of its expression, and how it is rendered.
#[derive(Debug)]
pub struct FmtTokenExpr {
    pub expr: String,
    pub args: FmtTokenExprArgs,
}

/// A run of literals, or a slot.
#[derive(Debug)]
pub enum FmtToken {
    Lit(Vec<FmtTokenLit>),
    Expr(FmtTokenExpr),
}

/// A [`FmtToken`] as contracts see it.
pub enum FmtTokenView {
    Lit(Seq<Seq<char>>),
    Expr(Seq<char>, RenderMode),
}

/// The texts of a run of literals.
pub open spec fn lit_views(run: Seq<FmtTokenLit>) -> Seq<Seq<char>> {
    Seq::new(run.len(), |i: int| run[i].0@)
}

impl View for FmtToken {
    type V = FmtTokenView;

    open spec fn view(&self) -> FmtTokenView {
        match self {
            FmtToken::Lit(run) => FmtTokenView::Lit(lit_views(run@)),
            FmtToken::Expr(slot) => FmtTokenView::Expr(slot.expr@, slot.args.render_mode),
        }
    }
}

/// The views of what a template holds.
pub open spec fn fmt_token_views(tokens: Seq<FmtToken>) -> Seq<FmtTokenView> {
    Seq::new(tokens.len(), |i: int| tokens[i]@)
}

/// The literals and slots of a template, in order.
#[derive(Debug)]
pub struct FmtTokens {
    pub tokens: Vec<FmtToken>,
}

/// A format call: what it makes, and its template.
#[derive(Debug)]
pub struct Fmt {
    pub mode: FmtMode,
    pub tokens: FmtTokens,
}

/// The digits that the characters of a text are, if all of them are digits.
pub open spec fn spec_digits(text: Seq<char>) -> Option<Seq<Digit>>
    decreases text.len(),
{
    if text.len() == 0 {
        Some(Seq::empty())
    } else {
        match (spec_digits(text.drop_last()), Digit::of_char(text.last())) {
            (Some(digits), Some(d)) => Some(digits.push(d)),
            _ => None,
        }
    }
}

/// The number up to 255 that a text of decimal digits stands for.
pub open spec fn spec_decimal_u8(text: Seq<char>) -> Option<u8> {
    if text.len() == 0 {
        None
    } else {
        match spec_digits(text) {
            Some(digits) => if crate::terminal::prompt::unsigned_int::digits_value(digits)
                <= u8::MAX {
                Some(crate::terminal::prompt::unsigned_int::digits_value(digits) as u8)
            } else {
                None
            },
            None => None,
        }
    }
}

/// The rendering mode that the tokens after the semicolon of a slot ask for:
/// none asks for the value as it stands, `?` for debugging, `b` for binary,
/// `h` for hexadecimal, `.` and a number for that many fractional digits;
/// `std` in front hands the value to the formatting of the standard library.
pub open spec fn spec_render_mode(tokens: Seq<SyntaxToken>) -> Option<RenderMode> {
    let passthrough = ident_at(tokens, 0, "std"@);
    let rest = if passthrough {
        tokens.skip(1)
    } else {
        tokens
    };
    if rest.len() == 0 {
        Some(
            if passthrough {
                RenderMode::PassthroughDisplay
            } else {
                RenderMode::Plain
            },
        )
    } else if rest.len() == 1 {
        if is_punct(rest[0], '?') {
            Some(
                if passthrough {
                    RenderMode::PassthroughDebug
                } else {
                    RenderMode::Debug
                },
            )
        } else if is_ident(rest[0], "b"@) {
            Some(
                if passthrough {
                    RenderMode::PassthroughBinary
                } else {
                    RenderMode::Binary
                },
            )
        } else if is_ident(rest[0], "h"@) {
            Some(
                if passthrough {
                    RenderMode::PassthroughHex
                } else {
                    RenderMode::Hex
                },
            )
        } else {
            None
        }
    } else if rest.len() == 2 && is_punct(rest[0], '.') && rest[1] is Literal {
        match spec_decimal_u8(rest[1]->Literal_0@) {
            Some(n) => Some(
                if passthrough {
                    RenderMode::PassthroughPrecision(n)
                } else {
                    RenderMode::Precision(n)
                },
            ),
            None => None,
        }
    } else {
        None
    }
}

/// The slot that curly brackets holding `content` are: an expression, where
/// the parser has accepted it, and after a semicolon, if there is one, its
/// rendering mode.
pub open spec fn spec_slot(content: Seq<SyntaxToken>, accepted: bool) -> Option<
    (Seq<char>, RenderMode),
> {
    match spec_expression(content, 0, accepted) {
        Some((text, end)) => if end == content.len() {
            Some((text, RenderMode::Plain))
        } else {
            match spec_render_mode(content.subrange(end + 1, content.len() as int)) {
                Some(mode) => Some((text, mode)),
                None => None,
            }
        },
        None => None,
    }
}

/// Whether a minus sign stands at `at` with a literal behind it.
pub open spec fn minus_at(tokens: Seq<SyntaxToken>, at: int) -> bool {
    punct_at(tokens, at, '-') && at + 1 < tokens.len() && tokens[at + 1] is Literal
}

/// The literal that starts at `at`, and where it ends: a literal of the
/// language; `true` or `false`; a minus sign and a literal, where the parser
/// has accepted the two as one literal; or round brackets that hold
/// something, where the parser has accepted that as an expression.
pub open spec fn spec_lit(tokens: Seq<SyntaxToken>, at: int, accepted: bool) -> Option<
    (Seq<char>, int),
> {
    if at < 0 || at >= tokens.len() {
        None
    } else {
        match tokens[at] {
            SyntaxToken::Literal(s) => Some((s@, at + 1)),
            SyntaxToken::Ident(s) => if s@ == "true"@ || s@ == "false"@ {
                Some((s@, at + 1))
            } else {
                None
            },
            SyntaxToken::Punct(_, _) => if minus_at(tokens, at) && accepted {
                Some((seq!['-'] + tokens[at + 1]->Literal_0@, at + 2))
            } else {
                None
            },
            SyntaxToken::Group(Delimiter::Parenthesis, inner) => if inner@.len() > 0 && accepted {
                Some((tokens_text(inner@), at + 1))
            } else {
                None
            },
            _ => None,
        }
    }
}

/// A literal, or a slot.
pub enum PieceView {
    Lit(Seq<char>),
    Expr(Seq<char>, RenderMode),
}

/// What starts at `at` in a template, if it is anything, and where it ends:
/// a literal, or else curly brackets that hold a slot.
pub open spec fn spec_piece(tokens: Seq<SyntaxToken>, at: int, accepted: bool) -> Option<
    (PieceView, int),
> {
    match spec_lit(tokens, at, accepted) {
        Some((text, end)) => Some((PieceView::Lit(text), end)),
        None => if 0 <= at < tokens.len() {
            match tokens[at] {
                SyntaxToken::Group(Delimiter::Brace, content) => match spec_slot(
                    content@,
                    accepted,
                ) {
                    Some((text, mode)) => Some((PieceView::Expr(text, mode), at + 1)),
                    None => None,
                },
                _ => None,
            }
        } else {
            None
        },
    }
}

/// What the parser said of what starts at `at`; no, where it said nothing.
pub open spec fn answer_at(answers: Seq<bool>, at: int) -> bool {
    0 <= at < answers.len() && answers[at]
}

/// The literals and slots from `at` on, after those in `held`, where each
/// token starts one or belongs to one; else the place of the first token
/// that does neither.
pub open spec fn spec_read(
    tokens: Seq<SyntaxToken>,
    answers: Seq<bool>,
    at: int,
    held: Seq<PieceView>,
) -> Result<Seq<PieceView>, int>
    decreases tokens.len() - at,
{
    if at < 0 || at >= tokens.len() {
        Ok(held)
    } else {
        match spec_piece(tokens, at, answer_at(answers, at)) {
            Some((piece, end)) => if end > at {
                spec_read(tokens, answers, end, held.push(piece))
            } else {
                Err(at)
            },
            None => Err(at),
        }
    }
}

/// What has been read so far: the tokens that are settled, and after them
/// the run of literals that may still grow.
pub open spec fn with_run(held: Seq<FmtTokenView>, run: Seq<Seq<char>>) -> Seq<FmtTokenView> {
    if run.len() > 0 {
        held.push(FmtTokenView::Lit(run))
    } else {
        held
    }
}

/// The slots, and between them the runs of literals, each run as one.
pub open spec fn grouped(pieces: Seq<PieceView>) -> Seq<FmtTokenView>
    decreases pieces.len(),
{
    if pieces.len() == 0 {
        Seq::empty()
    } else {
        let front = grouped(pieces.drop_last());
        match pieces.last() {
            PieceView::Lit(text) => if front.len() > 0 && front.last() is Lit {
                front.drop_last().push(FmtTokenView::Lit(front.last()->Lit_0.push(text)))
            } else {
                front.push(FmtTokenView::Lit(seq![text]))
            },
            PieceView::Expr(text, mode) => front.push(FmtTokenView::Expr(text, mode)),
        }
    }
}

/// What the tokens from `from` on are as a template, given what the parser
/// said of each: the slots and the runs of literals, or the place, counted
/// from `from`, of the first token that is part of neither.
pub open spec fn spec_fmt_tokens(tokens: Seq<SyntaxToken>, answers: Seq<bool>, from: int) -> Result<
    Seq<FmtTokenView>,
    SyntaxError,
> {
    match spec_read(tokens, answers, from, Seq::empty()) {
        Ok(pieces) => Ok(grouped(pieces)),
        Err(bad) => Err(SyntaxError::BadToken((bad - from) as usize)),
    }
}

/// A format call as contracts see it.
pub struct FmtView {
    pub mode: FmtModeView,
    pub tokens: Seq<FmtTokenView>,
}

impl View for Fmt {
    type V = FmtView;

    open spec fn view(&self) -> FmtView {
        FmtView { mode: self.mode@, tokens: fmt_token_views(self.tokens.tokens@) }
    }
}

/// Whether `=>` stands at `at`: a joint `=` and a `>` behind it.
pub open spec fn arrow_stands_at(tokens: Seq<SyntaxToken>, at: int) -> bool {
    punct_at(tokens, at, '=') && is_joint(tokens[at]) && punct_at(tokens, at + 1, '>')
}

/// What a format call is: round brackets that say what it makes, `=>`, and
/// the template. Of the answers of the parser the first is on the writer in
/// the round brackets, and each other one on what starts at its place.
pub open spec fn spec_fmt(tokens: Seq<SyntaxToken>, answers: Seq<bool>) -> Result<
    FmtView,
    SyntaxError,
> {
    if tokens.len() == 0 || !(tokens[0] matches SyntaxToken::Group(
        Delimiter::Parenthesis,
        _,
    )) {
        Err(SyntaxError::ExpectedMode)
    } else {
        match spec_mode(tokens[0]->Group_1@, answer_at(answers, 0)) {
            Err(e) => Err(e),
            Ok(mode) => if !arrow_stands_at(tokens, 1) {
                Err(SyntaxError::ExpectedArrow)
            } else {
                match spec_fmt_tokens(tokens, answers, 3) {
                    Ok(read) => Ok(FmtView { mode, tokens: read }),
                    Err(e) => Err(e),
                }
            },
        }
    }
}

/// Whether the slot that was read is what `expected` says.
pub open spec fn slot_read_as(
    r: Option<FmtTokenExpr>,
    expected: Option<(Seq<char>, RenderMode)>,
) -> bool {
    match r {
        Some(slot) => expected == Some((slot.expr@, slot.args.render_mode)),
        None => expected is None,
    }
}

/// Whether the literal that was read is what `expected` says.
pub open spec fn lit_read_as(
    r: Option<(FmtTokenLit, usize)>,
    expected: Option<(Seq<char>, int)>,
) -> bool {
    match r {
        Some((lit, end)) => expected == Some((lit.0@, end as int)),
        None => expected is None,
    }
}

/// Whether the template that was read, or the error, is what `expected`
/// says.
pub open spec fn tokens_read_as(
    r: Result<FmtTokens, SyntaxError>,
    expected: Result<Seq<FmtTokenView>, SyntaxError>,
) -> bool {
    match r {
        Ok(read) => expected == Ok::<Seq<FmtTokenView>, SyntaxError>(
            fmt_token_views(read.tokens@),
        ),
        Err(e) => expected == Err::<Seq<FmtTokenView>, SyntaxError>(e),
    }
}

/// Whether the format call that was read, or the error, is what `expected`
/// says.
pub open spec fn fmt_read_as(r: Result<Fmt, SyntaxError>, expected: Result<FmtView, SyntaxError>) -> bool {
    match r {
        Ok(read) => expected == Ok::<FmtView, SyntaxError>(read@),
        Err(e) => expected == Err::<FmtView, SyntaxError>(e),
    }
}

/// Text whose first characters are not all digits is not all digits.
pub proof fn lemma_digits_of_prefix(text: Seq<char>, k: int)
    requires
        0 <= k <= text.len(),
        spec_digits(text.take(k)) is None,
    ensures
        spec_digits(text) is None,
    decreases text.len() - k,
{
    if k == text.len() {
        assert(text.take(k) =~= text);
    } else {
        assert(text.take(k + 1).drop_last() =~= text.take(k));
        lemma_digits_of_prefix(text, k + 1);
    }
}

/// The number up to 255 that a text of decimal digits stands for.
pub fn parse_u8(text: &str) -> (r: Option<u8>)
    ensures
        r == spec_decimal_u8(text@),
{
    let mut digits: Vec<Digit> = Vec::new();
    proof {
        assert(text@.take(0) =~= Seq::<char>::empty());
    }
    for c in it: text.chars()
        invariant
            it.seq() == text@,
            spec_digits(text@.take(it.index() as int)) == Some(digits@),
            digits@.len() == it.index(),
    {
        let ghost k = it.index() as int;
        proof {
            assert(text@.take(k + 1).drop_last() =~= text@.take(k));
            assert(text@.take(k + 1).last() == c);
        }
        match Digit::try_from(c) {
            Ok(d) => {
                digits.push(d);
            },
            Err(_) => {
                proof {
                    lemma_digits_of_prefix(text@, k + 1);
                }
                return None;
            },
        }
    }
    proof {
        assert(text@.take(text@.len() as int) =~= text@);
    }
    if digits.len() == 0 {
        return None;
    }
    crate::terminal::prompt::unsigned_int::digits_to_number::<u8>(digits.as_slice())
}

/// Reads the rendering mode that the tokens ask for.
pub fn parse_render_mode(tokens: &Vec<SyntaxToken>) -> (r: Option<RenderMode>)
    ensures
        r == spec_render_mode(tokens@),
{
    proof {
        assert(tokens@.subrange(0, tokens@.len() as int) =~= tokens@);
    }
    parse_render_mode_in(tokens, 0, tokens.len())
}

/// Reads the rendering mode that the tokens from `from` up to `to` ask for.
fn parse_render_mode_in(tokens: &Vec<SyntaxToken>, from: usize, to: usize) -> (r: Option<
    RenderMode,
>)
    requires
        from <= to <= tokens.len(),
    ensures
        r == spec_render_mode(tokens@.subrange(from as int, to as int)),
{
    let ghost asked = tokens@.subrange(from as int, to as int);
    let passthrough = from < to && has_ident(tokens, from, "std");
    let start = if passthrough {
        from + 1
    } else {
        from
    };
    let ghost rest = if passthrough {
        asked.skip(1)
    } else {
        asked
    };
    proof {
        if from < to {
            assert(asked[0] == tokens@[from as int]);
        }
        assert(rest =~= tokens@.subrange(start as int, to as int));
        if start < to {
            assert(rest[0] == tokens@[start as int]);
        }
        if start + 1 < to {
            assert(rest[1] == tokens@[start + 1]);
        }
    }
    let count = to - start;
    if count == 0 {
        Some(
            if passthrough {
                RenderMode::PassthroughDisplay
            } else {
                RenderMode::Plain
            },
        )
    } else if count == 1 {
        if has_punct(tokens, start, '?') {
            Some(
                if passthrough {
                    RenderMode::PassthroughDebug
                } else {
                    RenderMode::Debug
                },
            )
        } else if has_ident(tokens, start, "b") {
            Some(
                if passthrough {
                    RenderMode::PassthroughBinary
                } else {
                    RenderMode::Binary
                },
            )
        } else if has_ident(tokens, start, "h") {
            Some(
                if passthrough {
                    RenderMode::PassthroughHex
                } else {
                    RenderMode::Hex
                },
            )
        } else {
            None
        }
    } else if count == 2 && has_punct(tokens, start, '.') {
        match &tokens[start + 1] {
            SyntaxToken::Literal(s) => match parse_u8(s.as_str()) {
                Some(n) => Some(
                    if passthrough {
                        RenderMode::PassthroughPrecision(n)
                    } else {
                        RenderMode::Precision(n)
                    },
                ),
                None => None,
            },
            _ => None,
        }
    } else {
        None
    }
}

impl ExprMode {
    /// Reads how the expression of a slot is captured; nothing is said of
    /// it, and nothing is taken.
    pub fn parse(tokens: &Vec<SyntaxToken>, at: usize) -> (r: (ExprMode, usize))
        ensures
            r.0 == ExprMode::Unspecified,
            r.1 == at,
    {
        (ExprMode::Unspecified, at)
    }
}

impl FmtTokenExprArgs {
    /// Reads what follows the expression of a slot: a semicolon at `at`,
    /// and after it the rendering mode, up to the end.
    pub fn parse(tokens: &Vec<SyntaxToken>, at: usize) -> (r: Option<FmtTokenExprArgs>)
        ensures
            r is Some <==> punct_at(tokens@, at as int, ';') && spec_render_mode(
                tokens@.subrange(at + 1, tokens@.len() as int),
            ) is Some,
            r matches Some(args) ==> args.expr_mode == ExprMode::Unspecified && Some(args.render_mode)
                == spec_render_mode(tokens@.subrange(at + 1, tokens@.len() as int)),
    {
        if !has_punct(tokens, at, ';') {
            return None;
        }
        let (expr_mode, next) = ExprMode::parse(tokens, at + 1);
        match parse_render_mode_in(tokens, next, tokens.len()) {
            Some(render_mode) => Some(FmtTokenExprArgs { expr_mode, render_mode }),
            None => None,
        }
    }
}

impl FmtTokenExpr {
    /// Reads the slot that curly brackets holding `content` are, given what
    /// the parser said of its expression.
    pub fn parse_with(content: &Vec<SyntaxToken>, accepted: bool) -> (r: Option<FmtTokenExpr>)
        ensures
            slot_read_as(r, spec_slot(content@, accepted)),
    {
        match parse_expression_with(content, 0, accepted) {
            Some((expr, end)) => {
                if end == content.len() {
                    Some(
                        FmtTokenExpr {
                            expr,
                            args: FmtTokenExprArgs {
                                expr_mode: ExprMode::Unspecified,
                                render_mode: RenderMode::Plain,
                            },
                        },
                    )
                } else {
                    proof {
                        lemma_semicolon(content@, 0);
                    }
                    match FmtTokenExprArgs::parse(content, end) {
                        Some(args) => Some(FmtTokenExpr { expr, args }),
                        None => None,
                    }
                }
            },
            None => None,
        }
    }

    /// Reads the slot that curly brackets holding `content` are.
    pub fn parse(content: &Vec<SyntaxToken>) -> (r: Option<FmtTokenExpr>)
        ensures
            exists|accepted: bool| slot_read_as(r, #[trigger] spec_slot(content@, accepted)),
    {
        let accepted = ask_expression(content, 0);
        FmtTokenExpr::parse_with(content, accepted)
    }
}

/// The text of a literal with a minus sign in front.
fn negative_text(literal: &str) -> (text: String)
    ensures
        text@ == seq!['-'] + literal@,
{
    proof {
        reveal_strlit("-");
    }
    let mut text = String::from_str("-");
    text.append(literal);
    proof {
        assert(text@ =~= seq!['-'] + literal@);
    }
    text
}

/// Whether a minus sign stands at `at` with a literal behind it.
fn has_minus(tokens: &Vec<SyntaxToken>, at: usize) -> (b: bool)
    ensures
        b == minus_at(tokens@, at as int),
        b ==> at + 1 < tokens.len(),
{
    if has_punct(tokens, at, '-') && at + 1 < tokens.len() {
        match &tokens[at + 1] {
            SyntaxToken::Literal(_) => true,
            _ => false,
        }
    } else {
        false
    }
}

/// What the parser says of the literal that would start at `at`, where it is
/// asked: of a minus sign and the literal behind it, whether the two are one
/// literal; of what round brackets hold, whether it is an expression.
fn ask_literal(tokens: &Vec<SyntaxToken>, at: usize) -> (accepted: bool) {
    if at >= tokens.len() {
        return false;
    }
    match &tokens[at] {
        SyntaxToken::Punct(_, _) => {
            if has_minus(tokens, at) {
                match &tokens[at + 1] {
                    SyntaxToken::Literal(s) => {
                        let text = negative_text(s.as_str());
                        syn_is_literal(text.as_str())
                    },
                    _ => false,
                }
            } else {
                false
            }
        },
        SyntaxToken::Group(delimiter, inner) => match delimiter {
            Delimiter::Parenthesis => {
                if inner.len() == 0 {
                    false
                } else {
                    let text = tokens_to_text(inner);
                    syn_is_expression(text.as_str())
                }
            },
            _ => false,
        },
        _ => false,
    }
}

/// What the parser says of what would start at `at` in a template, where it
/// is asked: of a literal as above, of a slot whether what it holds up to
/// the first semicolon is an expression.
fn ask_piece(tokens: &Vec<SyntaxToken>, at: usize) -> (accepted: bool) {
    if at >= tokens.len() {
        return false;
    }
    match &tokens[at] {
        SyntaxToken::Group(delimiter, content) => match delimiter {
            Delimiter::Brace => ask_expression(content, 0),
            _ => ask_literal(tokens, at),
        },
        _ => ask_literal(tokens, at),
    }
}

/// What the parser says of what starts at each place from `from` on; no for
/// the places before.
fn ask_pieces(tokens: &Vec<SyntaxToken>, from: usize) -> (answers: Vec<bool>)
    ensures
        answers.len() == tokens.len(),
{
    let mut answers: Vec<bool> = Vec::new();
    let mut i: usize = 0;
    while i < tokens.len()
        invariant
            i <= tokens.len(),
            answers.len() == i,
        decreases tokens.len() - i,
    {
        let accepted = if i < from {
            false
        } else {
            ask_piece(tokens, i)
        };
        answers.push(accepted);
        i = i + 1;
    }
    answers
}

/// What the parser said of what starts at `at`.
fn answer(answers: &Vec<bool>, at: usize) -> (accepted: bool)
    ensures
        accepted == answer_at(answers@, at as int),
{
    if at < answers.len() {
        answers[at]
    } else {
        false
    }
}

impl FmtTokenLit {
    /// Reads the literal that starts at `at`, given what the parser said of
    /// it.
    pub fn parse_with(tokens: &Vec<SyntaxToken>, at: usize, accepted: bool) -> (r: Option<
        (FmtTokenLit, usize),
    >)
        ensures
            lit_read_as(r, spec_lit(tokens@, at as int, accepted)),
            r matches Some((_, end)) ==> at < end <= tokens.len(),
    {
        if at >= tokens.len() {
            return None;
        }
        match &tokens[at] {
            SyntaxToken::Literal(s) => Some((FmtTokenLit(s.clone()), at + 1)),
            SyntaxToken::Ident(s) => {
                if has_ident(tokens, at, "true") || has_ident(tokens, at, "false") {
                    Some((FmtTokenLit(s.clone()), at + 1))
                } else {
                    None
                }
            },
            SyntaxToken::Punct(_, _) => {
                if has_minus(tokens, at) && accepted {
                    match &tokens[at + 1] {
                        SyntaxToken::Literal(s) => Some(
                            (FmtTokenLit(negative_text(s.as_str())), at + 2),
                        ),
                        _ => None,
                    }
                } else {
                    None
                }
            },
            SyntaxToken::Group(delimiter, inner) => {
                match delimiter {
                    Delimiter::Parenthesis => {
                        if inner.len() > 0 && accepted {
                            Some((FmtTokenLit(tokens_to_text(inner)), at + 1))
                        } else {
                            None
                        }
                    },
                    _ => None,
                }
            },
        }
    }

    /// Reads the literal that starts at `at`.
    pub fn parse(tokens: &Vec<SyntaxToken>, at: usize) -> (r: Option<(FmtTokenLit, usize)>)
        ensures
            exists|accepted: bool|
                lit_read_as(r, #[trigger] spec_lit(tokens@, at as int, accepted)),
            r matches Some((_, end)) ==> at < end <= tokens.len(),
    {
        let accepted = ask_literal(tokens, at);
        FmtTokenLit::parse_with(tokens, at, accepted)
    }
}

/// What a token of a template is.
enum Piece {
    Lit(FmtTokenLit),
    Expr(FmtTokenExpr),
}

/// A piece as contracts see it.
spec fn piece_view(piece: Piece) -> PieceView {
    match piece {
        Piece::Lit(lit) => PieceView::Lit(lit.0@),
        Piece::Expr(slot) => PieceView::Expr(slot.expr@, slot.args.render_mode),
    }
}

/// Reads what starts at `at` in a template, given what the parser said of
/// it.
fn parse_piece_with(tokens: &Vec<SyntaxToken>, at: usize, accepted: bool) -> (r: Option<
    (Piece, usize),
>)
    requires
        at < tokens.len(),
    ensures
        match r {
            Some((piece, end)) => spec_piece(tokens@, at as int, accepted) == Some(
                (piece_view(piece), end as int),
            ) && at < end <= tokens.len(),
            None => spec_piece(tokens@, at as int, accepted) is None,
        },
{
    match FmtTokenLit::parse_with(tokens, at, accepted) {
        Some((lit, end)) => Some((Piece::Lit(lit), end)),
        None => match &tokens[at] {
            SyntaxToken::Group(delimiter, content) => match delimiter {
                Delimiter::Brace => match FmtTokenExpr::parse_with(content, accepted) {
                    Some(slot) => Some((Piece::Expr(slot), at + 1)),
                    None => None,
                },
                _ => None,
            },
            _ => None,
        },
    }
}

impl FmtTokens {
    /// Reads the template that the tokens are, given what the parser said
    /// of what starts at each place. Literals that follow one another are
    /// kept as one run.
    pub fn parse_with(tokens: &Vec<SyntaxToken>, answers: &Vec<bool>) -> (r: Result<
        FmtTokens,
        SyntaxError,
    >)
        ensures
            tokens_read_as(r, spec_fmt_tokens(tokens@, answers@, 0)),
    {
        FmtTokens::parse_from_with(tokens, answers, 0)
    }

    /// Reads the template that the tokens are.
    pub fn parse(tokens: &Vec<SyntaxToken>) -> (r: Result<FmtTokens, SyntaxError>)
        ensures
            exists|answers: Seq<bool>|
                tokens_read_as(r, #[trigger] spec_fmt_tokens(tokens@, answers, 0)),
    {
        let answers = ask_pieces(tokens, 0);
        FmtTokens::parse_with(tokens, &answers)
    }

    /// Reads the template that the tokens from `from` on are.
    fn parse_from_with(tokens: &Vec<SyntaxToken>, answers: &Vec<bool>, from: usize) -> (r: Result<
        FmtTokens,
        SyntaxError,
    >)
        requires
            from <= tokens.len(),
        ensures
            tokens_read_as(r, spec_fmt_tokens(tokens@, answers@, from as int)),
    {
        let mut out: Vec<FmtToken> = Vec::new();
        let mut run: Vec<FmtTokenLit> = Vec::new();
        let mut i: usize = from;
        let ghost mut pieces: Seq<PieceView> = Seq::empty();
        proof {
            assert(fmt_token_views(out@) =~= Seq::<FmtTokenView>::empty());
            assert(lit_views(run@) =~= Seq::<Seq<char>>::empty());
        }
        while i < tokens.len()
            invariant
                from <= i <= tokens.len(),
                out.len() > 0 ==> !(fmt_token_views(out@).last() is Lit),
                spec_read(tokens@, answers@, from as int, Seq::empty()) == spec_read(
                    tokens@,
                    answers@,
                    i as int,
                    pieces,
                ),
                grouped(pieces) == with_run(fmt_token_views(out@), lit_views(run@)),
            decreases tokens.len() - i,
        {
            let ghost held = fmt_token_views(out@);
            let ghost was = lit_views(run@);
            let ghost before = pieces;
            let accepted = answer(answers, i);
            match parse_piece_with(tokens, i, accepted) {
                None => {
                    return Err(SyntaxError::BadToken(i - from));
                },
                Some((Piece::Lit(lit), end)) => {
                    let ghost text = lit.0@;
                    run.push(lit);
                    proof {
                        pieces = before.push(PieceView::Lit(text));
                        let front = with_run(held, was);
                        assert(pieces.drop_last() =~= before);
                        assert(lit_views(run@) =~= was.push(text));
                        if was.len() > 0 {
                            assert(front.drop_last() =~= held);
                            assert(front.last() == FmtTokenView::Lit(was));
                        } else {
                            assert(front == held);
                            assert(was.push(text) =~= seq![text]);
                        }
                        assert(grouped(pieces) == with_run(held, was.push(text)));
                    }
                    i = end;
                },
                Some((Piece::Expr(slot), end)) => {
                    let ghost view = FmtTokenView::Expr(slot.expr@, slot.args.render_mode);
                    if run.len() > 0 {
                        out.push(FmtToken::Lit(run));
                        run = Vec::new();
                        proof {
                            assert(fmt_token_views(out@) =~= held.push(FmtTokenView::Lit(was)));
                        }
                    }
                    let ghost settled = fmt_token_views(out@);
                    out.push(FmtToken::Expr(slot));
                    proof {
                        pieces = before.push(PieceView::Expr(view->Expr_0, view->Expr_1));
                        assert(pieces.drop_last() =~= before);
                        assert(settled == with_run(held, was));
                        assert(fmt_token_views(out@) =~= settled.push(view));
                        assert(lit_views(run@) =~= Seq::<Seq<char>>::empty());
                        assert(grouped(pieces) == with_run(held, was).push(view));
                    }
                    i = end;
                },
            }
        }
        if run.len() > 0 {
            let ghost held = fmt_token_views(out@);
            let ghost was = lit_views(run@);
            out.push(FmtToken::Lit(run));
            proof {
                assert(fmt_token_views(out@) =~= held.push(FmtTokenView::Lit(was)));
            }
        }
        Ok(FmtTokens { tokens: out })
    }
}

/// Whether `=>` stands at `at`.
fn has_arrow(tokens: &Vec<SyntaxToken>, at: usize) -> (b: bool)
    ensures
        b == arrow_stands_at(tokens@, at as int),
{
    if has_punct(tokens, at, '=') {
        joins_next(&tokens[at]) && has_punct(tokens, at + 1, '>')
    } else {
        false
    }
}

impl Fmt {
    /// Reads a format call, given what the parser said: first of the writer
    /// in the round brackets, then of what starts at each other place.
    pub fn parse_with(tokens: &Vec<SyntaxToken>, answers: &Vec<bool>) -> (r: Result<
        Fmt,
        SyntaxError,
    >)
        ensures
            fmt_read_as(r, spec_fmt(tokens@, answers@)),
    {
        if tokens.len() == 0 {
            return Err(SyntaxError::ExpectedMode);
        }
        let mode = match &tokens[0] {
            SyntaxToken::Group(delimiter, content) => match delimiter {
                Delimiter::Parenthesis => match FmtMode::parse_with(content, answer(answers, 0)) {
                    Ok(mode) => mode,
                    Err(e) => {
                        return Err(e);
                    },
                },
                _ => {
                    return Err(SyntaxError::ExpectedMode);
                },
            },
            _ => {
                return Err(SyntaxError::ExpectedMode);
            },
        };
        if !has_arrow(tokens, 1) {
            return Err(SyntaxError::ExpectedArrow);
        }
        match FmtTokens::parse_from_with(tokens, answers, 3) {
            Ok(read) => Ok(Fmt { mode, tokens: read }),
            Err(e) => Err(e),
        }
    }

    /// Reads a format call.
    pub fn parse(tokens: &Vec<SyntaxToken>) -> (r: Result<Fmt, SyntaxError>)
        ensures
            exists|answers: Seq<bool>| fmt_read_as(r, #[trigger] spec_fmt(tokens@, answers)),
    {
        let mut answers = ask_pieces(tokens, 3);
        if tokens.len() > 0 {
            let accepted = match &tokens[0] {
                SyntaxToken::Group(_, content) => ask_writer(content, 0),
                _ => false,
            };
            answers.set(0, accepted);
        }
        Fmt::parse_with(tokens, &answers)
    }
}

} // verus!
