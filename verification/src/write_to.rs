//! The contract of what can be rendered: it hands a sink its pieces of text
//! in order, and says beforehand how long they are at least.

use vstd::prelude::*;
use crate::write::{SinkOp, Write};

verus! {

/// Whether `t` ends in a line terminator.
pub open spec fn ends_line(t: Seq<char>) -> bool {
    t.len() > 0 && t.last() == '\n'
}

/// Something that can be written to a sink. Writing it changes nothing in
/// it, so it can be written again.
pub trait WriteTo {
    /// The pieces of text handed to the sink, in order, if the type says
    /// which they are.
    open spec fn pieces(&self) -> Option<Seq<Seq<char>>> {
        None
    }

    /// Hands the pieces to the sink in order. The first write that fails
    /// ends the writing, and its error is returned as it is.
    fn write_to<W: Write>(&self, w: &mut W) -> (r: Result<(), W::Error>)
        ensures
            self.pieces() matches Some(pieces) ==> crate::write::run(
                *old(w),
                crate::write::text_ops(pieces),
                *final(w),
                r,
            ),
    ;

    /// A lower bound, in bytes, on what is written.
    #[inline]
    fn len_hint(&self) -> (n: usize)
        ensures
            self.pieces() matches Some(pieces) ==> n <= crate::utils::byte_len(pieces.flatten()),
    {
        0
    }

    /// Whether what is written is known to end in a line terminator.
    #[inline]
    fn ends_in_newline(&self) -> (b: bool)
        ensures
            b ==> (self.pieces() matches Some(pieces) && ends_line(pieces.flatten())),
    {
        false
    }
}

impl WriteTo for str {
    open spec fn pieces(&self) -> Option<Seq<Seq<char>>> {
        Some(seq![self@])
    }

    fn write_to<W: Write>(&self, w: &mut W) -> (r: Result<(), W::Error>) {
        let ghost start = *w;
        let r = w.write_str(self);
        proof {
            crate::render::lemma_run_piece(start, self@, *w, r);
        }
        r
    }

    fn len_hint(&self) -> (n: usize)
        ensures
            n == crate::utils::byte_len(self@),
    {
        proof {
            crate::compile::lemma_flatten_one(self@);
        }
        crate::value::byte_length(self)
    }

    fn ends_in_newline(&self) -> (b: bool)
        ensures
            b == ends_line(self@),
    {
        proof {
            crate::compile::lemma_flatten_one(self@);
        }
        crate::compile::text_ends_line(self)
    }
}

impl WriteTo for String {
    open spec fn pieces(&self) -> Option<Seq<Seq<char>>> {
        Some(seq![self@])
    }

    fn write_to<W: Write>(&self, w: &mut W) -> (r: Result<(), W::Error>) {
        self.as_str().write_to(w)
    }

    fn len_hint(&self) -> (n: usize)
        ensures
            n == crate::utils::byte_len(self@),
    {
        self.as_str().len_hint()
    }

    fn ends_in_newline(&self) -> (b: bool)
        ensures
            b == ends_line(self@),
    {
        self.as_str().ends_in_newline()
    }
}

impl WriteTo for u64 {
    open spec fn pieces(&self) -> Option<Seq<Seq<char>>> {
        Some(seq![crate::number::decimal_text(*self as nat)])
    }

    fn write_to<W: Write>(&self, w: &mut W) -> (r: Result<(), W::Error>) {
        let text = crate::number::unsigned_to_text(*self);
        text.as_str().write_to(w)
    }
}

impl WriteTo for i64 {
    open spec fn pieces(&self) -> Option<Seq<Seq<char>>> {
        Some(seq![crate::number::signed_decimal_text(*self as int)])
    }

    fn write_to<W: Write>(&self, w: &mut W) -> (r: Result<(), W::Error>) {
        let text = crate::number::signed_to_text(*self);
        text.as_str().write_to(w)
    }
}

/// The pieces of the items, one item after the other, if every item says
/// which its pieces are.
pub open spec fn items_pieces<T: WriteTo>(items: Seq<T>) -> Option<Seq<Seq<char>>>
    decreases items.len(),
{
    if items.len() == 0 {
        Some(Seq::empty())
    } else {
        match (items_pieces(items.drop_last()), items.last().pieces()) {
            (Some(front), Some(last)) => Some(front + last),
            _ => None,
        }
    }
}

/// Where the pieces of all items are known, so are those of the first.
pub proof fn lemma_items_pieces_prefix<T: WriteTo>(items: Seq<T>, k: int)
    requires
        0 <= k <= items.len(),
        items_pieces(items) is Some,
    ensures
        items_pieces(items.take(k)) is Some,
        exists|rest: Seq<Seq<char>>| #[trigger]
            (items_pieces(items.take(k))->Some_0 + rest) == items_pieces(items)->Some_0,
    decreases items.len() - k,
{
    if k == items.len() {
        assert(items.take(k) =~= items);
        let rest = Seq::<Seq<char>>::empty();
        assert(items_pieces(items)->Some_0 + rest =~= items_pieces(items)->Some_0);
    } else {
        lemma_items_pieces_prefix(items, k + 1);
        assert(items.take(k + 1).drop_last() =~= items.take(k));
        let tail = choose|rest: Seq<Seq<char>>| #[trigger]
            (items_pieces(items.take(k + 1))->Some_0 + rest) == items_pieces(items)->Some_0;
        let rest = items[k].pieces()->Some_0 + tail;
        assert(items.take(k + 1).last() == items[k]);
        assert(items_pieces(items.take(k))->Some_0 + rest =~= items_pieces(
            items.take(k + 1),
        )->Some_0 + tail);
    }
}

impl<T: WriteTo> WriteTo for [T] {
    open spec fn pieces(&self) -> Option<Seq<Seq<char>>> {
        items_pieces(self@)
    }

    /// Writes the items in order, each only after the one before it is
    /// written.
    fn write_to<W: Write>(&self, w: &mut W) -> (r: Result<(), W::Error>) {
        let ghost start = *w;
        let mut i: usize = 0;
        proof {
            assert(self@.take(0) =~= Seq::<T>::empty());
            assert(crate::write::text_ops(Seq::<Seq<char>>::empty()) =~= Seq::<SinkOp>::empty());
        }
        while i < self.len()
            invariant
                i <= self.len(),
                start == *old(w),
                items_pieces(self@) matches Some(all) ==> crate::write::run(
                    start,
                    crate::write::text_ops(items_pieces(self@.take(i as int))->Some_0),
                    *w,
                    Ok(()),
                ),
            decreases self.len() - i,
        {
            let ghost mid = *w;
            let r = self[i].write_to(w);
            proof {
                if items_pieces(self@) is Some {
                    lemma_items_pieces_prefix(self@, i as int);
                    lemma_items_pieces_prefix(self@, i + 1);
                    assert(self@.take(i + 1).drop_last() =~= self@.take(i as int));
                    assert(self@.take(i + 1).last() == self@[i as int]);
                    let done = items_pieces(self@.take(i as int))->Some_0;
                    let next = self@[i as int].pieces()->Some_0;
                    let rest = choose|rest: Seq<Seq<char>>| #[trigger]
                        (items_pieces(self@.take(i + 1))->Some_0 + rest) == items_pieces(
                            self@,
                        )->Some_0;
                    crate::render::lemma_run_then(start, done, mid, next, *w, r, rest);
                }
            }
            match r {
                Ok(()) => {
                    proof {
                        crate::write::lemma_ok_is_unit(r);
                    }
                },
                Err(e) => {
                    return Err(e);
                },
            }
            i = i + 1;
        }
        proof {
            assert(self@.take(i as int) =~= self@);
        }
        Ok(())
    }
}

impl WriteTo for crate::compile::Renderable {
    open spec fn pieces(&self) -> Option<Seq<Seq<char>>> {
        Some(crate::render::parts_pieces(self@))
    }

    fn write_to<W: Write>(&self, w: &mut W) -> (r: Result<(), W::Error>) {
        crate::compile::Renderable::write_to(self, w)
    }

    fn len_hint(&self) -> (n: usize)
        ensures
            n == if crate::compile::spec_size_hint(self@) <= usize::MAX {
                crate::compile::spec_size_hint(self@)
            } else {
                usize::MAX as nat
            },
    {
        self.size_hint()
    }

    fn ends_in_newline(&self) -> (b: bool)
        ensures
            b == crate::compile::spec_ends_in_terminator(self@),
    {
        self.ends_in_terminator()
    }
}

/// Something that is rendered through something else, which it hands out.
pub trait FmtAdvanced {
    type Target: WriteTo + ?Sized;

    /// The pieces of what is handed out, if the type says which they are.
    open spec fn formatted(&self) -> Option<Seq<Seq<char>>> {
        None
    }

    fn fmt_advanced(&self) -> (target: &Self::Target)
        ensures
            self.formatted() is Some ==> target.pieces() == self.formatted(),
    ;
}

impl<T: WriteTo + ?Sized> FmtAdvanced for T {
    type Target = Self;

    open spec fn formatted(&self) -> Option<Seq<Seq<char>>> {
        self.pieces()
    }

    /// What is handed out is the value itself.
    #[inline]
    fn fmt_advanced(&self) -> (target: &Self::Target)
        ensures
            target == self,
    {
        self
    }
}

/// Something that can be rendered as it stands.
pub trait Fmt: FmtAdvanced {
    fn fmt(&self) -> (target: &Self::Target)
        ensures
            self.formatted() is Some ==> target.pieces() == self.formatted(),
    ;
}

impl<T: FmtAdvanced + ?Sized> Fmt for T {
    /// What is handed out is what `fmt_advanced` hands out.
    #[inline]
    fn fmt(&self) -> (target: &Self::Target)
        ensures
            call_ensures(<T as FmtAdvanced>::fmt_advanced, (self,), target),
    {
        let own = <T as FmtAdvanced>::fmt_advanced;
        own(self)
    }
}

/// The operation that ends a line, if one is asked for.
pub open spec fn newline_ops(newline: bool) -> Seq<SinkOp> {
    if newline {
        seq![SinkOp::Text(seq!['\n'])]
    } else {
        Seq::empty()
    }
}

/// What writing `pieces` does to a sink: the pieces, a line terminator if
/// asked for, and a flush if asked for, unless the sink is line buffered and
/// `known` says that what was written ended a line.
pub open spec fn write_ops(
    pieces: Seq<Seq<char>>,
    newline: bool,
    flush: bool,
    line_buffered: bool,
    known: bool,
) -> Seq<SinkOp> {
    crate::write::text_ops(pieces) + newline_ops(newline) + crate::write::flush_ops(
        flush,
        line_buffered,
        newline || known,
    )
}

/// What follows a rendering that left the sink as `mid` and returned
/// `first`. After a failure nothing follows, and the failure is handed on as
/// it is. Else the line terminator is written if asked for, and then one
/// flush is made if and only if it is asked for and it is not so that the
/// sink is line buffered and a line has just ended: by the terminator, or
/// because the rendering is `known` to end in one.
pub open spec fn finished<W: Write>(
    mid: W,
    first: Result<(), W::Error>,
    newline: bool,
    flush: bool,
    known: bool,
    post: W,
    r: Result<(), W::Error>,
) -> bool {
    match first {
        Err(_) => post == mid && r == first,
        Ok(_) => crate::write::run(
            mid,
            newline_ops(newline) + crate::write::flush_ops(
                flush,
                W::IS_LINE_BUFFERED,
                newline || known,
            ),
            post,
            r,
        ),
    }
}

/// What writing `wt` with a line terminator and a flush as asked for does
/// to a sink: `wt` is rendered, with the pieces it says it has, and then
/// comes what follows a rendering, where `known` is what `wt` itself reports
/// of ending in a line terminator.
pub open spec fn wrote<W: Write, WT: WriteTo + ?Sized>(
    pre: W,
    wt: &WT,
    newline: bool,
    flush: bool,
    post: W,
    r: Result<(), W::Error>,
) -> bool {
    exists|known: bool, mid: W, first: Result<(), W::Error>|
        call_ensures(<WT as WriteTo>::ends_in_newline, (wt,), known) && (wt.pieces() matches Some(
            pieces,
        ) ==> crate::write::run(pre, crate::write::text_ops(pieces), mid, first))
            && #[trigger] finished(mid, first, newline, flush, known, post, r)
}

/// A rendering of `pieces` and what follows it are one run: the pieces, the
/// line terminator, the flush.
pub proof fn lemma_finished_run<W: Write>(
    start: W,
    pieces: Seq<Seq<char>>,
    mid: W,
    first: Result<(), W::Error>,
    newline: bool,
    flush: bool,
    known: bool,
    post: W,
    r: Result<(), W::Error>,
)
    requires
        crate::write::run(start, crate::write::text_ops(pieces), mid, first),
        finished(mid, first, newline, flush, known, post, r),
    ensures
        crate::write::run(
            start,
            write_ops(pieces, newline, flush, W::IS_LINE_BUFFERED, known),
            post,
            r,
        ),
{
    let text = crate::write::text_ops(pieces);
    let tail = newline_ops(newline) + crate::write::flush_ops(
        flush,
        W::IS_LINE_BUFFERED,
        newline || known,
    );
    assert(text + tail =~= write_ops(pieces, newline, flush, W::IS_LINE_BUFFERED, known));
    if first is Err {
        crate::write::lemma_run_failed_extend(start, text, mid, first, tail);
    } else {
        crate::write::lemma_ok_is_unit(first);
        crate::write::lemma_run_concat(start, text, mid, tail, post, r);
    }
}

/// Where `wt` says which its pieces are, writing it is one run: the pieces,
/// the line terminator, the flush, with what `wt` itself reports of ending
/// in a line terminator.
pub proof fn lemma_wrote_pieces<W: Write, WT: WriteTo + ?Sized>(
    pre: W,
    wt: &WT,
    pieces: Seq<Seq<char>>,
    newline: bool,
    flush: bool,
    post: W,
    r: Result<(), W::Error>,
)
    requires
        wt.pieces() == Some(pieces),
        wrote(pre, wt, newline, flush, post, r),
    ensures
        exists|known: bool|
            call_ensures(<WT as WriteTo>::ends_in_newline, (wt,), known) && #[trigger] crate::write::run(
                pre,
                write_ops(pieces, newline, flush, W::IS_LINE_BUFFERED, known),
                post,
                r,
            ),
{
    let (known, mid, first) = choose|known: bool, mid: W, first: Result<(), W::Error>|
        call_ensures(<WT as WriteTo>::ends_in_newline, (wt,), known) && (wt.pieces() matches Some(
            pieces,
        ) ==> crate::write::run(pre, crate::write::text_ops(pieces), mid, first))
            && #[trigger] finished(mid, first, newline, flush, known, post, r);
    lemma_finished_run(pre, pieces, mid, first, newline, flush, known, post, r);
}

/// Writes `wt`, then a line terminator if `newline`, then flushes if `flush`
/// and the sink is not known to have flushed by itself. A failure ends it.
pub fn write_advanced<W: Write, WT: WriteTo + ?Sized>(
    w: &mut W,
    wt: &WT,
    flush: bool,
    newline: bool,
) -> (r: Result<(), W::Error>)
    ensures
        wrote(*old(w), wt, newline, flush, *final(w), r),
{
    let report = <WT as WriteTo>::ends_in_newline;
    let known = report(wt);
    let first = wt.write_to(w);
    let ghost mid = *w;
    let r = finish_write(w, first, flush, newline, known);
    proof {
        assert(finished(mid, first, newline, flush, known, *w, r));
    }
    r
}

/// Writes the text `s`, then a line terminator if `newline`, then flushes if
/// `flush`, unless the sink is line buffered and what was written ended a
/// line. A failure ends it.
pub fn write_text_advanced<W: Write>(w: &mut W, s: &str, flush: bool, newline: bool) -> (r: Result<
    (),
    W::Error,
>)
    ensures
        crate::write::run(
            *old(w),
            write_ops(seq![s@], newline, flush, W::IS_LINE_BUFFERED, ends_line(s@)),
            *final(w),
            r,
        ),
{
    let known = crate::compile::text_ends_line(s);
    let ghost start = *w;
    let first = w.write_str(s);
    let ghost mid = *w;
    let r = finish_write(w, first, flush, newline, known);
    proof {
        crate::render::lemma_run_piece(start, s@, mid, first);
        lemma_finished_run(start, seq![s@], mid, first, newline, flush, known, *w, r);
    }
    r
}

/// What follows a rendering that returned `first`: after a failure nothing,
/// and the failure is returned as it is; else the line terminator if asked
/// for, and the flush if asked for, unless the sink is line buffered and a
/// line has just ended.
pub fn finish_write<W: Write>(
    w: &mut W,
    first: Result<(), W::Error>,
    flush: bool,
    newline: bool,
    known: bool,
) -> (r: Result<(), W::Error>)
    ensures
        finished(*old(w), first, newline, flush, known, *final(w), r),
{
    let ghost mid = *w;
    let ghost tail = crate::write::flush_ops(flush, W::IS_LINE_BUFFERED, newline || known);
    match first {
        Ok(()) => {},
        Err(e) => {
            return Err(e);
        },
    }
    proof {
        assert(crate::write::run(mid, Seq::empty(), mid, Ok(())));
    }
    if newline {
        proof {
            reveal_strlit("\n");
            assert("\n"@ =~= seq!['\n']);
        }
        let second = w.write_str("\n");
        proof {
            crate::write::lemma_run_one(mid, SinkOp::Text(seq!['\n']), *w, second);
            assert(newline_ops(newline) =~= seq![SinkOp::Text(seq!['\n'])]);
        }
        match second {
            Ok(()) => {
                proof {
                    crate::write::lemma_ok_is_unit(second);
                }
            },
            Err(e) => {
                proof {
                    crate::write::lemma_run_failed_extend(
                        mid,
                        newline_ops(newline),
                        *w,
                        second,
                        tail,
                    );
                }
                return Err(e);
            },
        }
    } else {
        proof {
            assert(newline_ops(newline) =~= Seq::<SinkOp>::empty());
        }
    }
    let ghost before_flush = *w;
    if flush && !(W::IS_LINE_BUFFERED && (newline || known)) {
        w.flush_hint();
        proof {
            crate::write::lemma_run_push(
                mid,
                newline_ops(newline),
                before_flush,
                SinkOp::Flush,
                *w,
                Ok(()),
            );
            assert(newline_ops(newline).push(SinkOp::Flush) =~= newline_ops(newline) + tail);
        }
    } else {
        proof {
            assert(newline_ops(newline) + tail =~= newline_ops(newline));
        }
    }
    Ok(())
}

/// Renders into a new `String`.
pub trait ToString {
    /// The text that comes out, if the type says which it is.
    open spec fn rendered_text(&self) -> Option<Seq<char>> {
        None
    }

    fn to_string(&self) -> (s: String)
        ensures
            self.rendered_text() matches Some(text) ==> s@ == text,
    ;
}

impl<T: Fmt + ?Sized> ToString for T {
    open spec fn rendered_text(&self) -> Option<Seq<char>> {
        match self.formatted() {
            Some(pieces) => Some(pieces.flatten()),
            None => None,
        }
    }

    fn to_string(&self) -> (s: String) {
        let wt = self.fmt();
        let mut s = crate::write::presized_string(wt.len_hint());
        let ghost start = s;
        let r = wt.write_to(&mut s);
        proof {
            if self.formatted() is Some {
                let pieces = wt.pieces()->Some_0;
                crate::write::lemma_run_string(start, crate::write::text_ops(pieces), s, r);
                crate::write::lemma_text_ops_text(pieces);
                assert(start@ + pieces.flatten() =~= pieces.flatten());
            }
        }
        s
    }
}

/// A value together with what renders it.
pub struct WithFmtAdvanced<'a, T, U: WriteTo + ?Sized> {
    pub value: T,
    pub fmt: &'a U,
}

impl<'a, T, U: WriteTo + ?Sized> WithFmtAdvanced<'a, T, U> {
    pub fn new(value: T, str: &'a U) -> (r: Self)
        ensures
            r.value == value,
            r.fmt == str,
    {
        Self { value, fmt: str }
    }

    /// The same rendering with the value mapped by `f`.
    pub fn map_value<V, F: FnOnce(T) -> V>(self, f: F) -> (r: WithFmtAdvanced<'a, V, U>)
        requires
            call_requires(f, (self.value,)),
        ensures
            call_ensures(f, (self.value,), r.value),
            r.fmt == self.fmt,
    {
        WithFmtAdvanced { value: f(self.value), fmt: self.fmt }
    }

    /// The same rendering with `value` in place of the value.
    pub fn replace_value<V>(self, value: V) -> (r: WithFmtAdvanced<'a, V, U>)
        ensures
            r.value == value,
            r.fmt == self.fmt,
    {
        WithFmtAdvanced { value, fmt: self.fmt }
    }
}

impl<'a, T, U: WriteTo + ?Sized> FmtAdvanced for WithFmtAdvanced<'a, T, U> {
    type Target = U;

    open spec fn formatted(&self) -> Option<Seq<Seq<char>>> {
        self.fmt.pieces()
    }

    fn fmt_advanced(&self) -> (target: &Self::Target) {
        self.fmt
    }
}

} // verus!
