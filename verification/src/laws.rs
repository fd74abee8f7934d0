//! What holds of every template, stated over what compiling and rendering
//! are specified to do.

use vstd::prelude::*;
use crate::compile::Shape;
use crate::template::{PartView, Slot, Token};
use crate::value::{Capture, RenderMode};
use crate::write::Write;

verus! {

/// Whether every token is a literal.
pub open spec fn all_literal(tokens: Seq<Token>) -> bool {
    forall|i: int| 0 <= i < tokens.len() ==> #[trigger] tokens[i] is Literal
}

/// The texts of literal tokens, joined in order.
pub open spec fn literals_text(tokens: Seq<Token>) -> Seq<char>
    decreases tokens.len(),
{
    if tokens.len() == 0 {
        Seq::empty()
    } else {
        literals_text(tokens.drop_last()) + match tokens.last() {
            Token::Literal(s) => s@,
            _ => Seq::empty(),
        }
    }
}

/// Whether every part is literal text.
pub open spec fn all_text(parts: Seq<PartView>) -> bool {
    forall|i: int| 0 <= i < parts.len() ==> #[trigger] parts[i] is Text
}

/// Coalescing literal text leaves literal text.
pub proof fn lemma_coalesce_all_text(parts: Seq<PartView>)
    requires
        all_text(parts),
    ensures
        all_text(crate::compile::spec_coalesce(parts)),
    decreases parts.len(),
{
    if parts.len() != 0 {
        let front = parts.drop_last();
        assert(all_text(front)) by {
            assert forall|i: int| 0 <= i < front.len() implies #[trigger] front[i] is Text by {
                assert(front[i] == parts[i]);
            }
        }
        lemma_coalesce_all_text(front);
        assert(parts[parts.len() - 1] is Text);
    }
}

/// The expansion of two sequences of tokens is that of the first, then that
/// of the second, and the two are rejected as the first is, or else as the
/// second.
pub proof fn lemma_expand_concat(a: Seq<Token>, b: Seq<Token>)
    ensures
        crate::template::spec_expand(a + b) == crate::template::spec_expand(a)
            + crate::template::spec_expand(b),
        crate::template::spec_rejection(a + b) == match crate::template::spec_rejection(a) {
            Some(e) => Some(e),
            None => crate::template::spec_rejection(b),
        },
    decreases b.len(),
{
    if b.len() == 0 {
        assert(a + b =~= a);
        assert(crate::template::spec_expand(a) + crate::template::spec_expand(b)
            =~= crate::template::spec_expand(a));
    } else {
        lemma_expand_concat(a, b.drop_last());
        assert((a + b).drop_last() =~= a + b.drop_last());
        assert((a + b).last() == b.last());
        assert(crate::template::spec_expand(a + b) =~= crate::template::spec_expand(a)
            + crate::template::spec_expand(b));
    }
}

/// The expansion of one token alone.
pub proof fn lemma_expand_one(token: Token)
    ensures
        crate::template::spec_expand(seq![token]) == crate::template::spec_expand_token(token),
        crate::template::spec_rejection(seq![token]) == crate::template::spec_rejection_token(
            token,
        ),
{
    let s = seq![token];
    assert(s.drop_last() =~= Seq::<Token>::empty());
    assert(crate::template::spec_expand(s.drop_last()) =~= Seq::<PartView>::empty());
    assert(crate::template::spec_rejection(s.drop_last()) is None);
    assert(s.last() == token);
    assert(crate::template::spec_expand(s) =~= crate::template::spec_expand_token(token));
}

/// Literal-only templates: a template of literals alone is not rejected and
/// lacks no capability, it has no slot and no iteration left after compiling,
/// and its text is the literals joined in order.
pub proof fn lemma_literal_only(tokens: Seq<Token>)
    requires
        all_literal(tokens),
    ensures
        crate::compile::spec_compiles(tokens),
        all_text(crate::template::spec_expand(tokens)),
        crate::render::parts_text(
            crate::compile::spec_coalesce(crate::template::spec_expand(tokens)),
        ) == literals_text(tokens),
        crate::compile::spec_shape(
            crate::compile::spec_coalesce(crate::template::spec_expand(tokens)),
        ) == Shape::Empty || crate::compile::spec_shape(
            crate::compile::spec_coalesce(crate::template::spec_expand(tokens)),
        ) == Shape::AllLiteral,
    decreases tokens.len(),
{
    let expanded = crate::template::spec_expand(tokens);
    let compiled = crate::compile::spec_coalesce(expanded);
    if tokens.len() == 0 {
        assert(crate::render::parts_text(compiled) =~= Seq::<char>::empty()) by {
            assert(crate::render::parts_pieces(compiled) =~= Seq::<Seq<char>>::empty());
        }
    } else {
        let front = tokens.drop_last();
        assert(all_literal(front)) by {
            assert forall|i: int| 0 <= i < front.len() implies #[trigger] front[i] is Literal by {
                assert(front[i] == tokens[i]);
            }
        }
        lemma_literal_only(front);
        let last = tokens.last();
        assert(tokens[tokens.len() - 1] == last);
        assert(last is Literal);
        let text = last->Literal_0@;
        let before = crate::template::spec_expand(front);
        assert(crate::template::spec_expand_token(last) =~= seq![PartView::Text(text)]);
        assert(crate::template::spec_rejection_token(last) is None);
        assert(expanded == before + seq![PartView::Text(text)]);
        assert(crate::template::spec_rejection(tokens) is None);
        assert(all_text(expanded));
        crate::compile::lemma_coalesce_keeps_text(expanded);
        crate::compile::lemma_coalesce_keeps_text(before);
        crate::render::lemma_parts_text_concat(before, seq![PartView::Text(text)]);
        crate::render::lemma_parts_pieces_one(PartView::Text(text));
        crate::compile::lemma_flatten_one(text);
    }
    lemma_coalesce_all_text(expanded);
    assert(crate::render::parts_capable(compiled));
}

/// Single-slot passthrough: a template that is one slot rendered as it stands
/// compiles to that slot alone, and what it writes is the one piece that the
/// value writes by itself. Captured by reference, no wrapper is made for it.
pub proof fn lemma_single_slot(slot: Slot)
    requires
        slot.mode == RenderMode::Plain,
    ensures
        crate::compile::spec_compiles(seq![Token::Slot(slot)]),
        crate::compile::spec_coalesce(crate::template::spec_expand(seq![Token::Slot(slot)]))
            == seq![PartView::Slot(slot@)],
        crate::render::parts_pieces(
            crate::compile::spec_coalesce(crate::template::spec_expand(seq![Token::Slot(slot)])),
        ) == seq![slot@.value.plain()],
        crate::render::parts_text(
            crate::compile::spec_coalesce(crate::template::spec_expand(seq![Token::Slot(slot)])),
        ) == slot@.value.plain(),
        crate::compile::spec_shape(
            crate::compile::spec_coalesce(crate::template::spec_expand(seq![Token::Slot(slot)])),
        ) == if slot.capture == Capture::ByReference {
            Shape::SinglePassthrough
        } else {
            Shape::Aggregate
        },
{
    let token = Token::Slot(slot);
    let part = PartView::Slot(slot@);
    lemma_expand_one(token);
    let expanded = crate::template::spec_expand(seq![token]);
    assert(expanded == seq![part]);
    assert(crate::compile::canonical(expanded));
    crate::compile::lemma_coalesce_of_canonical(expanded);
    crate::render::lemma_parts_pieces_one(part);
    crate::compile::lemma_flatten_one(slot@.value.plain());
    assert(expanded[0] == part);
    assert(!(expanded[0] is Text));
}

/// Coalescing invisibility: a literal written as one token or split in two
/// adjacent tokens compiles to the same parts, so the same pieces are written
/// and the same text comes out. Nor does the split change whether and why the
/// template is rejected.
pub proof fn lemma_split_literal(
    before: Seq<Token>,
    whole: String,
    left: String,
    right: String,
    after: Seq<Token>,
)
    requires
        whole@ == left@ + right@,
    ensures
        crate::compile::spec_coalesce(
            crate::template::spec_expand(before + seq![Token::Literal(whole)] + after),
        ) == crate::compile::spec_coalesce(
            crate::template::spec_expand(
                before + seq![Token::Literal(left), Token::Literal(right)] + after,
            ),
        ),
        crate::template::spec_rejection(before + seq![Token::Literal(whole)] + after)
            == crate::template::spec_rejection(
            before + seq![Token::Literal(left), Token::Literal(right)] + after,
        ),
{
    let one = seq![Token::Literal(whole)];
    let two = seq![Token::Literal(left), Token::Literal(right)];
    lemma_expand_concat(before, one);
    lemma_expand_concat(before + one, after);
    lemma_expand_concat(before, two);
    lemma_expand_concat(before + two, after);
    lemma_expand_one(Token::Literal(whole));
    lemma_expand_one(Token::Literal(left));
    lemma_expand_one(Token::Literal(right));
    lemma_expand_concat(seq![Token::Literal(left)], seq![Token::Literal(right)]);
    assert(seq![Token::Literal(left)] + seq![Token::Literal(right)] =~= two);
    assert(crate::template::spec_expand(two) =~= seq![
        PartView::Text(left@),
        PartView::Text(right@),
    ]);
    crate::compile::lemma_coalesce_split(
        crate::template::spec_expand(before),
        left@,
        right@,
        crate::template::spec_expand(after),
    );
}

/// Aggregate order: the text of a template is the text of its tokens, each
/// in its place.
pub proof fn lemma_text_in_order(before: Seq<Token>, after: Seq<Token>)
    ensures
        crate::render::parts_text(
            crate::compile::spec_coalesce(crate::template::spec_expand(before + after)),
        ) == crate::render::parts_text(crate::template::spec_expand(before))
            + crate::render::parts_text(crate::template::spec_expand(after)),
{
    lemma_expand_concat(before, after);
    crate::compile::lemma_coalesce_keeps_text(crate::template::spec_expand(before + after));
    crate::render::lemma_parts_text_concat(
        crate::template::spec_expand(before),
        crate::template::spec_expand(after),
    );
}

/// Short circuit: if writing pieces to a sink failed, the pieces before some
/// piece were written, that piece failed, and the sink and the error are as
/// that failure left them: nothing was written after it.
pub proof fn lemma_short_circuit<W: Write>(
    pre: W,
    pieces: Seq<Seq<char>>,
    post: W,
    r: Result<(), W::Error>,
)
    requires
        crate::write::run(pre, crate::write::text_ops(pieces), post, r),
        r is Err,
    ensures
        exists|k: int, mid: W|
            0 <= k < pieces.len() && crate::write::run(
                pre,
                crate::write::text_ops(pieces.take(k)),
                mid,
                Ok(()),
            ) && #[trigger] W::write_step(mid, pieces[k], post, r),
{
    let ops = crate::write::text_ops(pieces);
    crate::write::lemma_run_failure_point(pre, ops, post, r);
    let (k, mid) = choose|k: int, mid: W|
        0 <= k < ops.len() && crate::write::run(pre, ops.take(k), mid, Ok(()))
            && #[trigger] crate::write::op_step(mid, ops[k], post, r);
    assert(ops.take(k) =~= crate::write::text_ops(pieces.take(k)));
    assert(ops[k] == crate::write::SinkOp::Text(pieces[k]));
    assert(W::write_step(mid, pieces[k], post, r));
}

/// Short circuit, the other way round: once a piece has failed, whatever
/// pieces the template holds after it change neither the sink nor the
/// result.
pub proof fn lemma_failure_ends_the_writing<W: Write>(
    pre: W,
    written: Seq<Seq<char>>,
    post: W,
    r: Result<(), W::Error>,
    unwritten: Seq<Seq<char>>,
)
    requires
        crate::write::run(pre, crate::write::text_ops(written), post, r),
        r is Err,
    ensures
        crate::write::run(pre, crate::write::text_ops(written + unwritten), post, r),
{
    crate::render::lemma_text_ops_concat(written, unwritten);
    crate::write::lemma_run_failed_extend(
        pre,
        crate::write::text_ops(written),
        post,
        r,
        crate::write::text_ops(unwritten),
    );
}

/// Short-circuit, whatever is rendered: after a rendering that failed, no
/// line terminator is written and no flush is made, and the failure is
/// handed on as it is.
pub proof fn lemma_nothing_follows_a_failure<W: Write>(
    mid: W,
    first: Result<(), W::Error>,
    newline: bool,
    flush: bool,
    known: bool,
    post: W,
    r: Result<(), W::Error>,
)
    requires
        first is Err,
        crate::write_to::finished(mid, first, newline, flush, known, post, r),
    ensures
        post == mid,
        r == first,
{
}

/// Flush elision: after a rendering that went well, with no line terminator
/// asked for, the sink is flushed if a flush is asked for and it is not so
/// that the sink is line buffered and the rendering is known to end a line;
/// else the sink is left as it is. Neither fails.
pub proof fn lemma_flush_is_left_out<W: Write>(
    mid: W,
    first: Result<(), W::Error>,
    flush: bool,
    known: bool,
    post: W,
    r: Result<(), W::Error>,
)
    requires
        first is Ok,
        crate::write_to::finished(mid, first, false, flush, known, post, r),
    ensures
        r is Ok,
        if flush && !(W::IS_LINE_BUFFERED && known) {
            crate::write::flush_may(mid, post)
        } else {
            post == mid
        },
{
    let ops = crate::write_to::newline_ops(false) + crate::write::flush_ops(
        flush,
        W::IS_LINE_BUFFERED,
        known,
    );
    assert(crate::write::run(mid, ops, post, r));
    if flush && !(W::IS_LINE_BUFFERED && known) {
        assert(ops =~= seq![crate::write::SinkOp::Flush]);
        assert(ops.drop_last() =~= Seq::<crate::write::SinkOp>::empty());
        assert(ops.last() == crate::write::SinkOp::Flush);
        if r is Err {
            assert(crate::write::run(mid, ops.drop_last(), post, r));
        } else {
            let before = choose|before: W|
                crate::write::run(mid, ops.drop_last(), before, Ok(()))
                    && #[trigger] crate::write::op_step(before, ops.last(), post, r);
            assert(before == mid);
        }
    } else {
        assert(ops =~= Seq::<crate::write::SinkOp>::empty());
    }
}

/// Flush elision after a line terminator: where one is asked for and all
/// goes well, it is written after the rendering, and then the sink is
/// flushed if a flush is asked for and the sink is not line buffered; else
/// it is left as the line terminator left it.
pub proof fn lemma_flush_after_a_line<W: Write>(
    mid: W,
    first: Result<(), W::Error>,
    flush: bool,
    known: bool,
    post: W,
    r: Result<(), W::Error>,
)
    requires
        first is Ok,
        r is Ok,
        crate::write_to::finished(mid, first, true, flush, known, post, r),
    ensures
        exists|after: W| #[trigger]
            W::write_step(mid, seq!['\n'], after, Ok(())) && if flush && !W::IS_LINE_BUFFERED {
                crate::write::flush_may(after, post)
            } else {
                post == after
            },
{
    let line = crate::write::SinkOp::Text(seq!['\n']);
    let ops = crate::write_to::newline_ops(true) + crate::write::flush_ops(
        flush,
        W::IS_LINE_BUFFERED,
        true,
    );
    crate::write::lemma_ok_is_unit(r);
    assert(crate::write::run(mid, ops, post, r));
    if flush && !W::IS_LINE_BUFFERED {
        assert(ops =~= seq![line, crate::write::SinkOp::Flush]);
        assert(ops.drop_last() =~= seq![line]);
        let after = choose|after: W|
            crate::write::run(mid, ops.drop_last(), after, Ok(()))
                && #[trigger] crate::write::op_step(after, ops.last(), post, r);
        assert(seq![line].drop_last() =~= Seq::<crate::write::SinkOp>::empty());
        let start = choose|start: W|
            crate::write::run(mid, seq![line].drop_last(), start, Ok(()))
                && #[trigger] crate::write::op_step(start, seq![line].last(), after, Ok(()));
        assert(start == mid);
        assert(W::write_step(mid, seq!['\n'], after, Ok(())));
    } else {
        assert(ops =~= seq![line]);
        assert(ops.drop_last() =~= Seq::<crate::write::SinkOp>::empty());
        let start = choose|start: W|
            crate::write::run(mid, ops.drop_last(), start, Ok(()))
                && #[trigger] crate::write::op_step(start, ops.last(), post, r);
        assert(start == mid);
        assert(W::write_step(mid, seq!['\n'], post, Ok(())));
    }
}

/// Restartability: rendering starts afresh each time: into two sinks that hold text, one
/// compiled template writes the same text after whatever each held, and
/// neither writing fails.
pub proof fn lemma_render_twice(
    pieces: Seq<Seq<char>>,
    first: String,
    first_after: String,
    first_result: Result<(), core::convert::Infallible>,
    second: String,
    second_after: String,
    second_result: Result<(), core::convert::Infallible>,
)
    requires
        crate::write::run(first, crate::write::text_ops(pieces), first_after, first_result),
        crate::write::run(second, crate::write::text_ops(pieces), second_after, second_result),
    ensures
        first_result is Ok,
        second_result is Ok,
        first_after@ == first@ + pieces.flatten(),
        second_after@ == second@ + pieces.flatten(),
{
    crate::write::lemma_run_string(
        first,
        crate::write::text_ops(pieces),
        first_after,
        first_result,
    );
    crate::write::lemma_run_string(
        second,
        crate::write::text_ops(pieces),
        second_after,
        second_result,
    );
    crate::write::lemma_text_ops_text(pieces);
}

} // verus!
