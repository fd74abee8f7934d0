//! What an expanded template writes, and the writing of it.
//!
//! An expanded template hands a sink a sequence of pieces of text: one for
//! each literal, one for each slot, and for an iteration those of its
//! template once for each element, with the separator between two elements.
//! The pieces go out in the order of the template, each once, and the first
//! failure of the sink ends the writing.

use vstd::prelude::*;
use crate::template::{ItemPart, ItemToken, Iterate, IterateView, Part, PartView};
use crate::value::{Value, ValueView};
use crate::write::{SinkOp, Write};

verus! {

/// The pieces of an iteration's template for one element.
pub open spec fn item_pieces(body: Seq<ItemPart>, item: ValueView) -> Seq<Seq<char>> {
    Seq::new(
        body.len(),
        |i: int|
            match body[i] {
                ItemPart::Text(t) => t,
                ItemPart::Item(mode) => item.rendered(mode),
                ItemPart::Slot(slot) => slot.value.rendered(slot.mode),
            },
    )
}

/// The separator before an element: none before the first.
pub open spec fn separator_pieces(separator: Option<Seq<char>>, first: bool) -> Seq<Seq<char>> {
    if first || separator is None {
        Seq::empty()
    } else {
        seq![separator->Some_0]
    }
}

/// The pieces of the first `count` elements of an iteration.
pub open spec fn iterate_pieces(iterate: IterateView, count: nat) -> Seq<Seq<char>>
    decreases count,
{
    if count == 0 || count > iterate.source.len() {
        Seq::empty()
    } else {
        iterate_pieces(iterate, (count - 1) as nat) + separator_pieces(
            iterate.separator,
            count == 1,
        ) + item_pieces(iterate.body, iterate.source[count - 1])
    }
}

/// The pieces of one part.
pub open spec fn part_pieces(part: PartView) -> Seq<Seq<char>> {
    match part {
        PartView::Text(t) => seq![t],
        PartView::Slot(slot) => seq![slot.value.rendered(slot.mode)],
        PartView::Iterate(iterate) => iterate_pieces(iterate, iterate.source.len()),
    }
}

/// The pieces of a sequence of parts: those of each part, in order.
pub open spec fn parts_pieces(parts: Seq<PartView>) -> Seq<Seq<char>>
    decreases parts.len(),
{
    if parts.len() == 0 {
        Seq::empty()
    } else {
        parts_pieces(parts.drop_last()) + part_pieces(parts.last())
    }
}

/// The text of a sequence of parts: its pieces joined.
pub open spec fn parts_text(parts: Seq<PartView>) -> Seq<char> {
    parts_pieces(parts).flatten()
}

/// Whether one token of an iteration's template can be rendered for an
/// element: the element in the mode asked of it, a value of its own in its
/// own mode.
pub open spec fn item_part_capable(part: ItemPart, item: ValueView) -> bool {
    match part {
        ItemPart::Text(_) => true,
        ItemPart::Item(mode) => item.supports(mode),
        ItemPart::Slot(slot) => slot.value.supports(slot.mode),
    }
}

/// Whether an element can be rendered by every token of an iteration's
/// template.
pub open spec fn item_capable(body: Seq<ItemPart>, item: ValueView) -> bool {
    forall|j: int| 0 <= j < body.len() ==> item_part_capable(#[trigger] body[j], item)
}

/// Whether the values that an iteration's template holds of its own can be
/// rendered in their modes.
pub open spec fn slots_capable(body: Seq<ItemPart>) -> bool {
    forall|j: int|
        0 <= j < body.len() ==> (#[trigger] body[j] matches ItemPart::Slot(slot)
            ==> slot.value.supports(slot.mode))
}

/// Whether an iteration can be rendered: the values its template holds of
/// its own in their modes, and every element in every mode asked of it.
pub open spec fn iterate_capable(iterate: IterateView) -> bool {
    &&& slots_capable(iterate.body)
    &&& forall|i: int|
        0 <= i < iterate.source.len() ==> item_capable(iterate.body, #[trigger] iterate.source[i])
}

/// Whether the values of a part can be rendered in the modes asked for.
pub open spec fn part_capable(part: PartView) -> bool {
    match part {
        PartView::Text(_) => true,
        PartView::Slot(slot) => slot.value.supports(slot.mode),
        PartView::Iterate(iterate) => iterate_capable(iterate),
    }
}

/// Whether the values of all parts can be rendered in the modes asked for.
pub open spec fn parts_capable(parts: Seq<PartView>) -> bool {
    forall|i: int| 0 <= i < parts.len() ==> part_capable(#[trigger] parts[i])
}

/// The pieces of two sequences of parts are those of the first, then those
/// of the second.
pub proof fn lemma_parts_pieces_concat(a: Seq<PartView>, b: Seq<PartView>)
    ensures
        parts_pieces(a + b) == parts_pieces(a) + parts_pieces(b),
    decreases b.len(),
{
    if b.len() == 0 {
        assert(a + b =~= a);
        assert(parts_pieces(a) + parts_pieces(b) =~= parts_pieces(a));
    } else {
        lemma_parts_pieces_concat(a, b.drop_last());
        assert((a + b).drop_last() =~= a + b.drop_last());
        assert((a + b).last() == b.last());
        assert(parts_pieces(a + b) =~= parts_pieces(a) + parts_pieces(b));
    }
}

/// The pieces of one part alone.
pub proof fn lemma_parts_pieces_one(part: PartView)
    ensures
        parts_pieces(seq![part]) == part_pieces(part),
{
    let s = seq![part];
    assert(s.drop_last() =~= Seq::<PartView>::empty());
    assert(parts_pieces(s.drop_last()) =~= Seq::<Seq<char>>::empty());
    assert(s.last() == part);
    assert(parts_pieces(s) =~= part_pieces(part));
}

/// The text of two sequences of parts is the text of the first, then that of
/// the second.
pub proof fn lemma_parts_text_concat(a: Seq<PartView>, b: Seq<PartView>)
    ensures
        parts_text(a + b) == parts_text(a) + parts_text(b),
{
    lemma_parts_pieces_concat(a, b);
    vstd::seq_lib::lemma_flatten_concat(parts_pieces(a), parts_pieces(b));
}

/// The writes of two sequences of pieces are those of the first, then those
/// of the second.
pub proof fn lemma_text_ops_concat(a: Seq<Seq<char>>, b: Seq<Seq<char>>)
    ensures
        crate::write::text_ops(a + b) == crate::write::text_ops(a) + crate::write::text_ops(b),
{
    assert(crate::write::text_ops(a + b) =~= crate::write::text_ops(a) + crate::write::text_ops(
        b,
    ));
}

/// One write is a run of one piece.
pub proof fn lemma_run_piece<W: Write>(pre: W, piece: Seq<char>, post: W, r: Result<(), W::Error>)
    requires
        W::write_step(pre, piece, post, r),
    ensures
        crate::write::run(pre, crate::write::text_ops(seq![piece]), post, r),
{
    crate::write::lemma_run_one(pre, SinkOp::Text(piece), post, r);
    assert(crate::write::text_ops(seq![piece]) =~= seq![SinkOp::Text(piece)]);
}

/// After the pieces `done` went well, the pieces `next`: together they are
/// one run, and if it failed, whatever pieces would have followed change
/// nothing.
pub proof fn lemma_run_then<W: Write>(
    start: W,
    done: Seq<Seq<char>>,
    mid: W,
    next: Seq<Seq<char>>,
    post: W,
    r: Result<(), W::Error>,
    rest: Seq<Seq<char>>,
)
    requires
        crate::write::run(start, crate::write::text_ops(done), mid, Ok(())),
        crate::write::run(mid, crate::write::text_ops(next), post, r),
    ensures
        crate::write::run(start, crate::write::text_ops(done + next), post, r),
        r is Err ==> crate::write::run(
            start,
            crate::write::text_ops(done + next + rest),
            post,
            r,
        ),
{
    lemma_text_ops_concat(done, next);
    crate::write::lemma_run_concat(
        start,
        crate::write::text_ops(done),
        mid,
        crate::write::text_ops(next),
        post,
        r,
    );
    if r is Err {
        lemma_text_ops_concat(done + next, rest);
        crate::write::lemma_run_failed_extend(
            start,
            crate::write::text_ops(done + next),
            post,
            r,
            crate::write::text_ops(rest),
        );
    }
}

/// The pieces of an iteration's first elements begin those of all of them.
pub proof fn lemma_iterate_pieces_prefix(iterate: IterateView, count: nat)
    requires
        count <= iterate.source.len(),
    ensures
        exists|rest: Seq<Seq<char>>| #[trigger]
            (iterate_pieces(iterate, count) + rest) == iterate_pieces(
                iterate,
                iterate.source.len(),
            ),
    decreases iterate.source.len() - count,
{
    if count == iterate.source.len() {
        let rest = Seq::<Seq<char>>::empty();
        assert(iterate_pieces(iterate, count) + rest =~= iterate_pieces(iterate, count));
    } else {
        lemma_iterate_pieces_prefix(iterate, count + 1);
        let tail = choose|rest: Seq<Seq<char>>| #[trigger]
            (iterate_pieces(iterate, count + 1) + rest) == iterate_pieces(
                iterate,
                iterate.source.len(),
            );
        let step = separator_pieces(iterate.separator, count + 1 == 1) + item_pieces(
            iterate.body,
            iterate.source[count as int],
        );
        let rest = step + tail;
        assert(iterate_pieces(iterate, count) + rest =~= iterate_pieces(iterate, count + 1)
            + tail);
    }
}

/// Writes the template of an iteration for one element, token by token.
pub fn write_item<W: Write>(body: &Vec<ItemToken>, item: &Value, w: &mut W) -> (r: Result<
    (),
    W::Error,
>)
    requires
        item_capable(crate::template::item_views(body@), item@),
    ensures
        crate::write::run(
            *old(w),
            crate::write::text_ops(item_pieces(crate::template::item_views(body@), item@)),
            *final(w),
            r,
        ),
{
    let ghost start = *w;
    let ghost views = crate::template::item_views(body@);
    let ghost all = item_pieces(views, item@);
    let mut i: usize = 0;
    proof {
        assert(all.take(0) =~= Seq::<Seq<char>>::empty());
        assert(crate::write::text_ops(all.take(0)) =~= Seq::<SinkOp>::empty());
    }
    while i < body.len()
        invariant
            i <= body.len(),
            start == *old(w),
            views == crate::template::item_views(body@),
            all == item_pieces(views, item@),
            item_capable(views, item@),
            crate::write::run(start, crate::write::text_ops(all.take(i as int)), *w, Ok(())),
        decreases body.len() - i,
    {
        let ghost mid = *w;
        let ghost piece = all[i as int];
        assert(views[i as int] == body@[i as int]@);
        assert(item_part_capable(views[i as int], item@));
        let r = match &body[i] {
            ItemToken::Literal(s) => w.write_str(s.as_str()),
            ItemToken::Item(mode) => item.write_to(mode, w),
            ItemToken::Slot(slot) => slot.value.write_to(&slot.mode, w),
        };
        proof {
            lemma_run_piece(mid, piece, *w, r);
            lemma_run_then(
                start,
                all.take(i as int),
                mid,
                seq![piece],
                *w,
                r,
                all.skip(i + 1),
            );
            assert(all.take(i as int) + seq![piece] =~= all.take(i + 1));
            assert(all.take(i as int) + seq![piece] + all.skip(i + 1) =~= all);
        }
        match r {
            Ok(()) => {
                proof {
                    crate::write::lemma_ok_is_unit(r);
                }
            },
            Err(e) => {
                return Err(e);
            },
        }
        i = i + 1;
    }
    proof {
        assert(all.take(i as int) =~= all);
    }
    Ok(())
}

/// Writes an iteration: its template for each element in turn, and the
/// separator before every element but the first. No element is rendered
/// before the one in front of it is written.
pub fn write_iterate<W: Write>(iterate: &Iterate, w: &mut W) -> (r: Result<(), W::Error>)
    requires
        iterate_capable(iterate@),
    ensures
        crate::write::run(
            *old(w),
            crate::write::text_ops(iterate_pieces(iterate@, iterate@.source.len())),
            *final(w),
            r,
        ),
{
    let ghost start = *w;
    let ghost view = iterate@;
    let ghost total = view.source.len();
    let mut i: usize = 0;
    proof {
        assert(crate::write::text_ops(iterate_pieces(view, 0)) =~= Seq::<SinkOp>::empty());
    }
    while i < iterate.source.len()
        invariant
            i <= iterate.source.len(),
            start == *old(w),
            view == iterate@,
            total == view.source.len(),
            total == iterate.source.len(),
            iterate_capable(view),
            crate::write::run(
                start,
                crate::write::text_ops(iterate_pieces(view, i as nat)),
                *w,
                Ok(()),
            ),
        decreases iterate.source.len() - i,
    {
        let ghost done = iterate_pieces(view, i as nat);
        let ghost sep = separator_pieces(view.separator, i == 0);
        let ghost item = view.source[i as int];
        let ghost body = item_pieces(view.body, item);
        let ghost before = *w;
        proof {
            lemma_iterate_pieces_prefix(view, (i + 1) as nat);
            assert(iterate_pieces(view, (i + 1) as nat) == done + sep + body);
            assert(item == iterate.source@[i as int]@);
        }
        let ghost tail = choose|rest: Seq<Seq<char>>| #[trigger]
            (iterate_pieces(view, (i + 1) as nat) + rest) == iterate_pieces(view, total);
        let mut wrote_separator = false;
        if i > 0 {
            match &iterate.separator {
                Some(separator) => {
                    let r = w.write_str(separator.as_str());
                    proof {
                        lemma_run_piece(before, separator@, *w, r);
                        lemma_run_then(start, done, before, sep, *w, r, body + tail);
                        assert(done + sep + (body + tail) =~= done + sep + body + tail);
                    }
                    match r {
                        Ok(()) => {
                            proof {
                                crate::write::lemma_ok_is_unit(r);
                            }
                        },
                        Err(e) => {
                            return Err(e);
                        },
                    }
                },
                None => {
                    proof {
                        assert(done + sep =~= done);
                    }
                },
            }
        } else {
            proof {
                assert(done + sep =~= done);
            }
        }
        let ghost mid = *w;
        assert(item_capable(view.body, item)) by {
            assert(view.source[i as int] == item);
        }
        let r = write_item(&iterate.body, &iterate.source[i], w);
        proof {
            lemma_run_then(start, done + sep, mid, body, *w, r, tail);
        }
        match r {
            Ok(()) => {
                proof {
                    crate::write::lemma_ok_is_unit(r);
                }
            },
            Err(e) => {
                return Err(e);
            },
        }
        i = i + 1;
    }
    Ok(())
}

/// Writes one part.
pub fn write_part<W: Write>(part: &Part, w: &mut W) -> (r: Result<(), W::Error>)
    requires
        part_capable(part@),
    ensures
        crate::write::run(*old(w), crate::write::text_ops(part_pieces(part@)), *final(w), r),
{
    let ghost start = *w;
    match part {
        Part::Literal(s) => {
            let r = w.write_str(s.as_str());
            proof {
                lemma_run_piece(start, s@, *w, r);
            }
            r
        },
        Part::Slot(slot) => {
            let r = slot.value.write_to(&slot.mode, w);
            proof {
                lemma_run_piece(start, slot@.value.rendered(slot@.mode), *w, r);
            }
            r
        },
        Part::Iterate(iterate) => write_iterate(iterate, w),
    }
}

/// Writes the parts in order, and stops at the first write that fails.
pub fn write_parts<W: Write>(parts: &Vec<Part>, w: &mut W) -> (r: Result<(), W::Error>)
    requires
        parts_capable(crate::template::part_views(parts@)),
    ensures
        crate::write::run(
            *old(w),
            crate::write::text_ops(parts_pieces(crate::template::part_views(parts@))),
            *final(w),
            r,
        ),
{
    let ghost start = *w;
    let ghost views = crate::template::part_views(parts@);
    let mut i: usize = 0;
    proof {
        assert(views.take(0) =~= Seq::<PartView>::empty());
        assert(crate::write::text_ops(parts_pieces(views.take(0))) =~= Seq::<SinkOp>::empty());
    }
    while i < parts.len()
        invariant
            i <= parts.len(),
            start == *old(w),
            views == crate::template::part_views(parts@),
            parts_capable(views),
            crate::write::run(
                start,
                crate::write::text_ops(parts_pieces(views.take(i as int))),
                *w,
                Ok(()),
            ),
        decreases parts.len() - i,
    {
        let ghost mid = *w;
        let ghost done = parts_pieces(views.take(i as int));
        let ghost next = part_pieces(views[i as int]);
        let ghost rest = parts_pieces(views.skip(i + 1));
        proof {
            assert(views[i as int] == parts@[i as int]@);
            assert(part_capable(views[i as int]));
        }
        let r = write_part(&parts[i], w);
        proof {
            lemma_run_then(start, done, mid, next, *w, r, rest);
            assert(views.take(i + 1).drop_last() =~= views.take(i as int));
            assert(parts_pieces(views.take(i + 1)) == done + next);
            lemma_parts_pieces_concat(views.take(i + 1), views.skip(i + 1));
            assert(views.take(i + 1) + views.skip(i + 1) =~= views);
        }
        match r {
            Ok(()) => {
                proof {
                    crate::write::lemma_ok_is_unit(r);
                }
            },
            Err(e) => {
                return Err(e);
            },
        }
        i = i + 1;
    }
    proof {
        assert(views.take(i as int) =~= views);
    }
    Ok(())
}

/// The views of a sequence of texts.
pub open spec fn text_views(texts: Seq<String>) -> Seq<Seq<char>> {
    Seq::new(texts.len(), |i: int| texts[i]@)
}

/// Writes the texts in order, and stops at the first write that fails.
pub fn write_texts<W: Write>(w: &mut W, texts: &Vec<String>) -> (r: Result<(), W::Error>)
    ensures
        crate::write::run(*old(w), crate::write::text_ops(text_views(texts@)), *final(w), r),
{
    let ghost start = *w;
    let ghost all = text_views(texts@);
    let mut i: usize = 0;
    proof {
        assert(all.take(0) =~= Seq::<Seq<char>>::empty());
        assert(crate::write::text_ops(all.take(0)) =~= Seq::<SinkOp>::empty());
    }
    while i < texts.len()
        invariant
            i <= texts.len(),
            start == *old(w),
            all == text_views(texts@),
            crate::write::run(start, crate::write::text_ops(all.take(i as int)), *w, Ok(())),
        decreases texts.len() - i,
    {
        let ghost mid = *w;
        let ghost piece = all[i as int];
        let r = w.write_str(texts[i].as_str());
        proof {
            lemma_run_piece(mid, piece, *w, r);
            lemma_run_then(
                start,
                all.take(i as int),
                mid,
                seq![piece],
                *w,
                r,
                all.skip(i + 1),
            );
            assert(all.take(i as int) + seq![piece] =~= all.take(i + 1));
            assert(all.take(i as int) + seq![piece] + all.skip(i + 1) =~= all);
        }
        match r {
            Ok(()) => {
                proof {
                    crate::write::lemma_ok_is_unit(r);
                }
            },
            Err(e) => {
                return Err(e);
            },
        }
        i = i + 1;
    }
    proof {
        assert(all.take(i as int) =~= all);
    }
    Ok(())
}

/// Writes the texts in order and then flushes; a write that fails ends it
/// before the flush.
pub fn write_texts_and_flush<W: Write>(w: &mut W, texts: &Vec<String>) -> (r: Result<
    (),
    W::Error,
>)
    ensures
        crate::write::run(
            *old(w),
            crate::write::text_ops(text_views(texts@)).push(SinkOp::Flush),
            *final(w),
            r,
        ),
{
    let ghost start = *w;
    let ghost ops = crate::write::text_ops(text_views(texts@));
    let written = write_texts(w, texts);
    match written {
        Ok(()) => {
            proof {
                crate::write::lemma_ok_is_unit(written);
            }
        },
        Err(e) => {
            proof {
                crate::write::lemma_run_failed_extend(start, ops, *w, written, seq![SinkOp::Flush]);
                assert(ops + seq![SinkOp::Flush] =~= ops.push(SinkOp::Flush));
            }
            return Err(e);
        },
    }
    let ghost mid = *w;
    w.flush_hint();
    proof {
        crate::write::lemma_run_push(start, ops, mid, SinkOp::Flush, *w, Ok(()));
    }
    Ok(())
}

} // verus!
