//! The sink contract: where rendered text goes.
//!
//! A sink is described by two relations, one for a write and one for a flush.
//! Nothing is assumed of a sink beyond them, so a sink may fail, and may fail
//! differently each time. What a sequence of operations does to a sink is the
//! relation [`run`]: the operations happen in order, and the first failure ends
//! the sequence with the sink as that failure left it.

use vstd::prelude::*;
use vstd::string::StringExecFns;
use crate::write_to::WriteTo;

verus! {

/// One operation on a sink.
pub enum SinkOp {
    /// Hand this text to the sink.
    Text(Seq<char>),
    /// Ask the sink to flush what it has buffered.
    Flush,
}

/// A destination for text.
pub trait Write: Sized {
    type Error;

    /// Whether the sink flushes by itself once a line terminator is written.
    const IS_LINE_BUFFERED: bool;

    /// What one call of `write_str` may do: from `pre`, given `s`, the sink
    /// ends as `post` and the call returns `r`. Unless a sink says what it
    /// does, anything may happen.
    open spec fn write_step(pre: Self, s: Seq<char>, post: Self, r: Result<(), Self::Error>) -> bool {
        true
    }

    /// What one call of `flush_hint` may do, if it does anything. Unless a
    /// sink says what it does, anything may happen.
    open spec fn flush_step(pre: Self, post: Self) -> bool {
        true
    }

    fn write_str(&mut self, s: &str) -> (r: Result<(), Self::Error>)
        ensures
            Self::write_step(*old(self), s@, *final(self), r),
    ;

    /// A flush is a hint: a sink may leave it at that.
    #[inline]
    fn flush_hint(&mut self)
        ensures
            *final(self) == *old(self) || Self::flush_step(*old(self), *final(self)),
    {
    }
}

/// What a flush may do to a sink: nothing, or what the sink says it does.
pub open spec fn flush_may<W: Write>(pre: W, post: W) -> bool {
    pre == post || W::flush_step(pre, post)
}

/// The flush that follows a write: one flush if `flush` is asked for and the
/// sink is not known to have flushed already, nothing otherwise.
pub open spec fn flush_ops(flush: bool, line_buffered: bool, ends_in_newline: bool) -> Seq<SinkOp> {
    if flush && !(line_buffered && ends_in_newline) {
        seq![SinkOp::Flush]
    } else {
        Seq::empty()
    }
}

/// What one operation may do to a sink.
pub open spec fn op_step<W: Write>(pre: W, op: SinkOp, post: W, r: Result<(), W::Error>) -> bool {
    match op {
        SinkOp::Text(s) => W::write_step(pre, s, post, r),
        SinkOp::Flush => flush_may(pre, post) && r is Ok,
    }
}

/// What a sequence of operations may do to a sink. Either an operation before
/// the last one failed, and nothing after it happened: then `post` and `r` are
/// what that failure left. Or all before the last succeeded, and `post` and `r`
/// are what the last one left.
pub open spec fn run<W: Write>(pre: W, ops: Seq<SinkOp>, post: W, r: Result<(), W::Error>) -> bool
    decreases ops.len(),
{
    if ops.len() == 0 {
        post == pre && r is Ok
    } else {
        ||| (r is Err && run(pre, ops.drop_last(), post, r))
        ||| exists|mid: W|
            run(pre, ops.drop_last(), mid, Ok(())) && #[trigger] op_step(mid, ops.last(), post, r)
    }
}

/// The operations that hand each of `pieces` to the sink, in order.
pub open spec fn text_ops(pieces: Seq<Seq<char>>) -> Seq<SinkOp> {
    pieces.map_values(|p: Seq<char>| SinkOp::Text(p))
}

/// A success carries nothing, so there is only one.
pub proof fn lemma_ok_is_unit<E>(r: Result<(), E>)
    requires
        r is Ok,
    ensures
        r == Ok::<(), E>(()),
{
    let u = r->Ok_0;
    assert(u == ());
}

/// One operation, run alone.
pub proof fn lemma_run_one<W: Write>(pre: W, op: SinkOp, post: W, r: Result<(), W::Error>)
    requires
        op_step(pre, op, post, r),
    ensures
        run(pre, seq![op], post, r),
{
    lemma_run_push(pre, Seq::empty(), pre, op, post, r);
    assert(Seq::<SinkOp>::empty().push(op) =~= seq![op]);
}

/// After a run that succeeded, one more operation.
pub proof fn lemma_run_push<W: Write>(
    pre: W,
    ops: Seq<SinkOp>,
    mid: W,
    op: SinkOp,
    post: W,
    r: Result<(), W::Error>,
)
    requires
        run(pre, ops, mid, Ok(())),
        op_step(mid, op, post, r),
    ensures
        run(pre, ops.push(op), post, r),
{
    let all = ops.push(op);
    assert(all.drop_last() =~= ops);
    assert(all.last() == op);
    assert(op_step(mid, all.last(), post, r));
}

/// Short circuit: once a run has failed, operations that follow change nothing.
pub proof fn lemma_run_failed_extend<W: Write>(
    pre: W,
    ops: Seq<SinkOp>,
    post: W,
    r: Result<(), W::Error>,
    more: Seq<SinkOp>,
)
    requires
        run(pre, ops, post, r),
        r is Err,
    ensures
        run(pre, ops + more, post, r),
    decreases more.len(),
{
    if more.len() == 0 {
        assert(ops + more =~= ops);
    } else {
        lemma_run_failed_extend(pre, ops, post, r, more.drop_last());
        assert((ops + more).drop_last() =~= ops + more.drop_last());
    }
}

/// Two runs, one after the other, are one run of both sequences.
pub proof fn lemma_run_concat<W: Write>(
    pre: W,
    first: Seq<SinkOp>,
    mid: W,
    second: Seq<SinkOp>,
    post: W,
    r: Result<(), W::Error>,
)
    requires
        run(pre, first, mid, Ok(())),
        run(mid, second, post, r),
    ensures
        run(pre, first + second, post, r),
    decreases second.len(),
{
    if second.len() == 0 {
        assert(first + second =~= first);
        lemma_ok_is_unit(r);
    } else {
        let all = first + second;
        assert(all.drop_last() =~= first + second.drop_last());
        assert(all.last() == second.last());
        if r is Err && run(mid, second.drop_last(), post, r) {
            lemma_run_concat(pre, first, mid, second.drop_last(), post, r);
        } else {
            let m = choose|m: W|
                run(mid, second.drop_last(), m, Ok(())) && #[trigger] op_step(
                    m,
                    second.last(),
                    post,
                    r,
                );
            lemma_run_concat(pre, first, mid, second.drop_last(), m, Ok(()));
        }
    }
}

/// Short circuit, spelled out: a run that failed went well up to some
/// operation, which failed, and `post` is the sink as that operation left it.
pub proof fn lemma_run_failure_point<W: Write>(
    pre: W,
    ops: Seq<SinkOp>,
    post: W,
    r: Result<(), W::Error>,
)
    requires
        run(pre, ops, post, r),
        r is Err,
    ensures
        exists|k: int, mid: W|
            0 <= k < ops.len() && run(pre, ops.take(k), mid, Ok(())) && #[trigger] op_step(
                mid,
                ops[k],
                post,
                r,
            ),
    decreases ops.len(),
{
    if ops.len() != 0 {
        let front = ops.drop_last();
        if run(pre, front, post, r) {
            lemma_run_failure_point(pre, front, post, r);
            let (k, mid) = choose|k: int, mid: W|
                0 <= k < front.len() && run(pre, front.take(k), mid, Ok(())) && #[trigger] op_step(
                    mid,
                    front[k],
                    post,
                    r,
                );
            assert(ops.take(k) =~= front.take(k));
            assert(ops[k] == front[k]);
        } else {
            let mid = choose|mid: W|
                run(pre, front, mid, Ok(())) && #[trigger] op_step(mid, ops.last(), post, r);
            let k = ops.len() - 1;
            assert(ops.take(k) =~= front);
        }
    }
}

/// What every sink offers on top of [`Write`].
pub trait WriteExt: Write {
    /// Writes `s`, then a line terminator, unless writing `s` failed.
    #[inline]
    fn writeln_str(&mut self, s: &str) -> (r: Result<(), Self::Error>)
        ensures
            run(*old(self), seq![SinkOp::Text(s@), SinkOp::Text(seq!['\n'])], *final(self), r),
    {
        let ghost pre = *self;
        let first = self.write_str(s);
        let ghost mid = *self;
        proof {
            lemma_run_one(pre, SinkOp::Text(s@), mid, first);
        }
        match first {
            Ok(()) => {
                proof {
                    lemma_ok_is_unit(first);
                    reveal_strlit("\n");
                    assert("\n"@ =~= seq!['\n']);
                }
                let second = self.write_str("\n");
                proof {
                    lemma_run_push(
                        pre,
                        seq![SinkOp::Text(s@)],
                        mid,
                        SinkOp::Text(seq!['\n']),
                        *self,
                        second,
                    );
                    assert(seq![SinkOp::Text(s@)].push(SinkOp::Text(seq!['\n'])) =~= seq![
                        SinkOp::Text(s@),
                        SinkOp::Text(seq!['\n']),
                    ]);
                }
                second
            },
            Err(e) => {
                proof {
                    lemma_run_failed_extend(
                        pre,
                        seq![SinkOp::Text(s@)],
                        mid,
                        first,
                        seq![SinkOp::Text(seq!['\n'])],
                    );
                    assert(seq![SinkOp::Text(s@)] + seq![SinkOp::Text(seq!['\n'])] =~= seq![
                        SinkOp::Text(s@),
                        SinkOp::Text(seq!['\n']),
                    ]);
                }
                Err(e)
            },
        }
    }

    /// Flushes, unless no flush is wanted or the sink has flushed by itself
    /// because it is line buffered and what was written ended a line.
    #[inline]
    fn flush_hint_advanced<const FLUSH: bool, const BUFFER_ENDS_IN_NEWLINE: bool>(&mut self)
        ensures
            run(
                *old(self),
                flush_ops(FLUSH, Self::IS_LINE_BUFFERED, BUFFER_ENDS_IN_NEWLINE),
                *final(self),
                Ok(()),
            ),
    {
        let ghost pre = *self;
        if FLUSH && !(BUFFER_ENDS_IN_NEWLINE && Self::IS_LINE_BUFFERED) {
            self.flush_hint();
            proof {
                lemma_run_one(pre, SinkOp::Flush, *self, Ok(()));
            }
        }
    }

    /// Writes `wt`, then a line terminator if `NEWLINE`, then flushes if
    /// `FLUSH` and the sink is not known to have flushed by itself.
    #[inline]
    fn write_advanced<WT: WriteTo + ?Sized, const FLUSH: bool, const NEWLINE: bool>(
        &mut self,
        wt: &WT,
    ) -> (r: Result<(), Self::Error>)
        ensures
            crate::write_to::wrote(*old(self), wt, NEWLINE, FLUSH, *final(self), r),
    {
        crate::write_to::write_advanced(self, wt, FLUSH, NEWLINE)
    }

    /// Writes `wt` and flushes.
    #[inline]
    fn write<WT: WriteTo + ?Sized>(&mut self, wt: &WT) -> (r: Result<(), Self::Error>)
        ensures
            crate::write_to::wrote(*old(self), wt, false, true, *final(self), r),
    {
        crate::write_to::write_advanced(self, wt, true, false)
    }

    /// Writes `wt` and a line terminator, and flushes.
    #[inline]
    fn writeln<WT: WriteTo + ?Sized>(&mut self, wt: &WT) -> (r: Result<(), Self::Error>)
        ensures
            crate::write_to::wrote(*old(self), wt, true, true, *final(self), r),
    {
        crate::write_to::write_advanced(self, wt, true, true)
    }

    /// Writes one character.
    #[inline]
    fn write_char(&mut self, c: char) -> (r: Result<(), Self::Error>)
        ensures
            Self::write_step(*old(self), seq![c], *final(self), r),
    {
        let text = char_to_string(c);
        self.write_str(text.as_str())
    }
}

impl<W: Write> WriteExt for W {

}

/// A new empty `String` with room for `capacity` bytes, or for as many as a
/// `String` can hold if that is less.
pub fn presized_string(capacity: usize) -> (s: String)
    ensures
        s@ == Seq::<char>::empty(),
{
    if capacity <= LARGEST_CAPACITY {
        string_with_capacity(capacity)
    } else {
        string_with_capacity(LARGEST_CAPACITY)
    }
}

/// The most bytes that may be asked of `String::with_capacity`.
pub const LARGEST_CAPACITY: usize = 0x7fff_ffff;

/// std's `String::with_capacity`: a new empty `String`. It panics when asked
/// for more than `isize::MAX` bytes, which the bound keeps away from.
#[verifier::external_body]
fn string_with_capacity(capacity: usize) -> (s: String)
    requires
        capacity <= LARGEST_CAPACITY,
    ensures
        s@ == Seq::<char>::empty(),
{
    String::with_capacity(capacity)
}

/// std's `String::from` of a character: the text of that one character.
#[verifier::external_body]
pub(crate) fn char_to_string(c: char) -> (s: String)
    ensures
        s@ == seq![c],
{
    String::from(c)
}

/// A sink that cannot fail.
pub trait WriteInfallible: Sized {
    /// The text the sink holds, if it says so.
    open spec fn contents(&self) -> Option<Seq<char>> {
        None
    }

    fn write_str_infallible(&mut self, s: &str)
        ensures
            old(self).contents() matches Some(held) ==> final(self).contents() == Some(held + s@),
    ;
}

impl WriteInfallible for String {
    open spec fn contents(&self) -> Option<Seq<char>> {
        Some(self@)
    }

    #[inline]
    fn write_str_infallible(&mut self, s: &str) {
        self.append(s);
    }
}

impl Write for String {
    type Error = core::convert::Infallible;

    const IS_LINE_BUFFERED: bool = false;

    open spec fn write_step(pre: Self, s: Seq<char>, post: Self, r: Result<(), Self::Error>) -> bool {
        r is Ok && post@ == pre@ + s
    }

    open spec fn flush_step(pre: Self, post: Self) -> bool {
        post@ == pre@
    }

    #[inline]
    fn write_str(&mut self, s: &str) -> (r: Result<(), Self::Error>) {
        self.write_str_infallible(s);
        Ok(())
    }
}

/// All the text of `ops`, in order; a flush adds none.
pub open spec fn ops_text(ops: Seq<SinkOp>) -> Seq<char>
    decreases ops.len(),
{
    if ops.len() == 0 {
        Seq::empty()
    } else {
        ops_text(ops.drop_last()) + match ops.last() {
            SinkOp::Text(s) => s,
            SinkOp::Flush => Seq::empty(),
        }
    }
}

/// The text of a sequence of writes is the pieces joined.
pub proof fn lemma_text_ops_text(pieces: Seq<Seq<char>>)
    ensures
        ops_text(text_ops(pieces)) == pieces.flatten(),
    decreases pieces.len(),
{
    let ops = text_ops(pieces);
    if pieces.len() == 0 {
        assert(pieces.flatten() =~= Seq::<char>::empty());
    } else {
        let front = pieces.drop_last();
        lemma_text_ops_text(front);
        assert(ops.drop_last() =~= text_ops(front));
        front.lemma_flatten_push(pieces.last());
        assert(front.push(pieces.last()) =~= pieces);
    }
}

/// Into a `String` every run succeeds and appends the text of its
/// operations, whatever the `String` held before.
pub proof fn lemma_run_string(pre: String, ops: Seq<SinkOp>, post: String, r: Result<(), core::convert::Infallible>)
    requires
        run(pre, ops, post, r),
    ensures
        r is Ok,
        post@ == pre@ + ops_text(ops),
    decreases ops.len(),
{
    if ops.len() == 0 {
        assert(pre@ + ops_text(ops) =~= pre@);
    } else {
        let front = ops.drop_last();
        if r is Err && run(pre, front, post, r) {
            lemma_run_string(pre, front, post, r);
        } else {
            let mid = choose|mid: String|
                run(pre, front, mid, Ok(())) && #[trigger] op_step(mid, ops.last(), post, r);
            lemma_run_string(pre, front, mid, Ok(()));
            match ops.last() {
                SinkOp::Text(s) => {
                    assert(post@ =~= pre@ + (ops_text(front) + s));
                },
                SinkOp::Flush => {
                    assert(post@ =~= pre@ + (ops_text(front) + Seq::<char>::empty()));
                },
            }
        }
    }
}

/// Hands a sink out as itself.
pub trait GetWriteInternal: Write {
    #[inline]
    fn get_write_mut_internal(&mut self) -> (w: &mut Self)
        ensures
            *w == *old(self),
            *final(self) == *final(w),
    {
        self
    }

    #[inline]
    fn get_write_internal(&mut self) -> (w: &mut Self)
        ensures
            *w == *old(self),
            *final(self) == *final(w),
    {
        self
    }
}

impl<W: Write> GetWriteInternal for W {

}

/// A sink that can be told to flush, and says whether that worked.
pub trait Flush: Sized {
    type Error;

    /// What one call of `flush` may do. Unless a sink says what it does,
    /// anything may happen.
    open spec fn flushed(pre: Self, post: Self, r: Result<(), Self::Error>) -> bool {
        true
    }

    fn flush(&mut self) -> (r: Result<(), Self::Error>)
        ensures
            Self::flushed(*old(self), *final(self), r),
    ;
}

impl Flush for String {
    type Error = core::convert::Infallible;

    open spec fn flushed(pre: Self, post: Self, r: Result<(), Self::Error>) -> bool {
        r is Ok && post@ == pre@
    }

    #[inline]
    fn flush(&mut self) -> (r: Result<(), Self::Error>) {
        Ok(())
    }
}

} // verus!
