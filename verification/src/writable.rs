//! Values that write themselves, and the ways a value can be asked to: as
//! it stands, for debugging, in binary, in hexadecimal.

use vstd::prelude::*;
use crate::write::Write;

verus! {

/// Something that can be written to a sink as it stands.
pub trait Writable {
    /// The pieces of text handed to the sink, in order, if the type says
    /// which they are.
    open spec fn writable_pieces(&self) -> Option<Seq<Seq<char>>> {
        None
    }

    fn write_to<W: Write>(&self, w: &mut W) -> (r: Result<(), W::Error>)
        ensures
            self.writable_pieces() matches Some(pieces) ==> crate::write::run(
                *old(w),
                crate::write::text_ops(pieces),
                *final(w),
                r,
            ),
    ;

    /// A lower bound, in bytes, on what is written.
    #[inline]
    fn len_hint(&self) -> (n: usize)
        ensures
            self.writable_pieces() matches Some(pieces) ==> n <= crate::utils::byte_len(pieces.flatten()),
    {
        0
    }
}

/// Hands a value out as what can be written.
pub trait AsWritable: Writable {
    fn as_writable(&self) -> (r: &Self)
        ensures
            r == self,
    ;
}

impl<T: Writable + ?Sized> AsWritable for T {
    #[inline]
    fn as_writable(&self) -> (r: &Self) {
        self
    }
}

/// Something that can be written for debugging.
pub trait WritableDebug {
    /// The pieces of text handed to the sink, in order, if the type says
    /// which they are.
    open spec fn debug_pieces(&self) -> Option<Seq<Seq<char>>> {
        None
    }

    fn write_to_debug<W: Write>(&self, w: &mut W) -> (r: Result<(), W::Error>)
        ensures
            self.debug_pieces() matches Some(pieces) ==> crate::write::run(
                *old(w),
                crate::write::text_ops(pieces),
                *final(w),
                r,
            ),
    ;

    #[inline]
    fn len_hint(&self) -> (n: usize)
        ensures
            self.debug_pieces() matches Some(pieces) ==> n <= crate::utils::byte_len(pieces.flatten()),
    {
        0
    }
}

/// Something that can be written in binary.
pub trait WritableBinary {
    /// The pieces of text handed to the sink, in order, if the type says
    /// which they are.
    open spec fn binary_pieces(&self) -> Option<Seq<Seq<char>>> {
        None
    }

    fn write_to_binary<W: Write>(&self, w: &mut W) -> (r: Result<(), W::Error>)
        ensures
            self.binary_pieces() matches Some(pieces) ==> crate::write::run(
                *old(w),
                crate::write::text_ops(pieces),
                *final(w),
                r,
            ),
    ;

    #[inline]
    fn len_hint(&self) -> (n: usize)
        ensures
            self.binary_pieces() matches Some(pieces) ==> n <= crate::utils::byte_len(pieces.flatten()),
    {
        0
    }
}

/// Something that can be written in hexadecimal.
pub trait WritableHexadecimal {
    /// The pieces of text handed to the sink, in order, if the type says
    /// which they are.
    open spec fn hexadecimal_pieces(&self) -> Option<Seq<Seq<char>>> {
        None
    }

    fn write_to_hexadecimal<W: Write>(&self, w: &mut W) -> (r: Result<(), W::Error>)
        ensures
            self.hexadecimal_pieces() matches Some(pieces) ==> crate::write::run(
                *old(w),
                crate::write::text_ops(pieces),
                *final(w),
                r,
            ),
    ;

    #[inline]
    fn len_hint(&self) -> (n: usize)
        ensures
            self.hexadecimal_pieces() matches Some(pieces) ==> n <= crate::utils::byte_len(pieces.flatten()),
    {
        0
    }
}

/// [`Writable`] under names that no other way of writing shares.
pub trait WritableInternal: Writable {
    fn write_to_internal<W: Write>(&self, w: &mut W) -> (r: Result<(), W::Error>)
        ensures
            self.writable_pieces() matches Some(pieces) ==> crate::write::run(
                *old(w),
                crate::write::text_ops(pieces),
                *final(w),
                r,
            ),
    ;

    /// The hint that the value's own `len_hint` gives.
    fn len_hint_internal(&self) -> (n: usize)
        ensures
            call_ensures(<Self as Writable>::len_hint, (self,), n),
            self.writable_pieces() matches Some(pieces) ==> n <= crate::utils::byte_len(pieces.flatten()),
    ;

    fn borrow_writable_internal(&self) -> (r: &Self)
        ensures
            r == self,
    ;
}

impl<T: Writable + ?Sized> WritableInternal for T {
    fn write_to_internal<W: Write>(&self, w: &mut W) -> (r: Result<(), W::Error>) {
        self.write_to(w)
    }

    #[inline]
    fn len_hint_internal(&self) -> (n: usize) {
        let own = <Self as Writable>::len_hint;
        own(self)
    }

    #[inline]
    fn borrow_writable_internal(&self) -> (r: &Self) {
        self
    }
}

/// [`WritableDebug`] under names that no other way of writing shares.
pub trait WritableDebugInternal: WritableDebug {
    fn write_to_internal<W: Write>(&self, w: &mut W) -> (r: Result<(), W::Error>)
        ensures
            self.debug_pieces() matches Some(pieces) ==> crate::write::run(
                *old(w),
                crate::write::text_ops(pieces),
                *final(w),
                r,
            ),
    ;

    /// The hint that the value's own `len_hint` gives.
    fn len_hint_internal(&self) -> (n: usize)
        ensures
            call_ensures(<Self as WritableDebug>::len_hint, (self,), n),
            self.debug_pieces() matches Some(pieces) ==> n <= crate::utils::byte_len(pieces.flatten()),
    ;

    fn borrow_writable_internal(&self) -> (r: &Self)
        ensures
            r == self,
    ;
}

impl<T: WritableDebug + ?Sized> WritableDebugInternal for T {
    fn write_to_internal<W: Write>(&self, w: &mut W) -> (r: Result<(), W::Error>) {
        self.write_to_debug(w)
    }

    #[inline]
    fn len_hint_internal(&self) -> (n: usize) {
        let own = <Self as WritableDebug>::len_hint;
        own(self)
    }

    #[inline]
    fn borrow_writable_internal(&self) -> (r: &Self) {
        self
    }
}

/// [`WritableBinary`] under names that no other way of writing shares.
pub trait WritableBinaryInternal: WritableBinary {
    fn write_to_internal<W: Write>(&self, w: &mut W) -> (r: Result<(), W::Error>)
        ensures
            self.binary_pieces() matches Some(pieces) ==> crate::write::run(
                *old(w),
                crate::write::text_ops(pieces),
                *final(w),
                r,
            ),
    ;

    /// The hint that the value's own `len_hint` gives.
    fn len_hint_internal(&self) -> (n: usize)
        ensures
            call_ensures(<Self as WritableBinary>::len_hint, (self,), n),
            self.binary_pieces() matches Some(pieces) ==> n <= crate::utils::byte_len(pieces.flatten()),
    ;

    fn borrow_writable_internal(&self) -> (r: &Self)
        ensures
            r == self,
    ;
}

impl<T: WritableBinary + ?Sized> WritableBinaryInternal for T {
    fn write_to_internal<W: Write>(&self, w: &mut W) -> (r: Result<(), W::Error>) {
        self.write_to_binary(w)
    }

    #[inline]
    fn len_hint_internal(&self) -> (n: usize) {
        let own = <Self as WritableBinary>::len_hint;
        own(self)
    }

    #[inline]
    fn borrow_writable_internal(&self) -> (r: &Self) {
        self
    }
}

/// [`WritableHexadecimal`] under names that no other way of writing shares.
pub trait WritableHexadecimalInternal: WritableHexadecimal {
    fn write_to_internal<W: Write>(&self, w: &mut W) -> (r: Result<(), W::Error>)
        ensures
            self.hexadecimal_pieces() matches Some(pieces) ==> crate::write::run(
                *old(w),
                crate::write::text_ops(pieces),
                *final(w),
                r,
            ),
    ;

    /// The hint that the value's own `len_hint` gives.
    fn len_hint_internal(&self) -> (n: usize)
        ensures
            call_ensures(<Self as WritableHexadecimal>::len_hint, (self,), n),
            self.hexadecimal_pieces() matches Some(pieces) ==> n <= crate::utils::byte_len(pieces.flatten()),
    ;

    fn borrow_writable_internal(&self) -> (r: &Self)
        ensures
            r == self,
    ;
}

impl<T: WritableHexadecimal + ?Sized> WritableHexadecimalInternal for T {
    fn write_to_internal<W: Write>(&self, w: &mut W) -> (r: Result<(), W::Error>) {
        self.write_to_hexadecimal(w)
    }

    #[inline]
    fn len_hint_internal(&self) -> (n: usize) {
        let own = <Self as WritableHexadecimal>::len_hint;
        own(self)
    }

    #[inline]
    fn borrow_writable_internal(&self) -> (r: &Self) {
        self
    }
}

/// A type whose every value is written as the same text.
pub trait WritableConstStr {
    const CONST_STR: &'static str;
}

/// Something that is written as a text that lives for ever.
pub trait WritableStaticStrAndStr {
    /// The text, if the type says which it is.
    open spec fn static_text(&self) -> Option<Seq<char>> {
        None
    }

    fn static_str_and_str(&self) -> (s: &'static str)
        ensures
            self.static_text() matches Some(text) ==> s@ == text,
    ;
}

impl<T: WritableConstStr + ?Sized> WritableStaticStrAndStr for T {
    open spec fn static_text(&self) -> Option<Seq<char>> {
        Some(T::CONST_STR@)
    }

    #[inline]
    fn static_str_and_str(&self) -> (s: &'static str) {
        Self::CONST_STR
    }
}

impl WritableStaticStrAndStr for bool {
    open spec fn static_text(&self) -> Option<Seq<char>> {
        Some(crate::value::bool_text(*self))
    }

    fn static_str_and_str(&self) -> (s: &'static str) {
        crate::value::bool_str(*self)
    }
}

/// A reference to something that is written as a text that lives for ever.
pub trait WritableStaticStrInternal: Sized {
    /// The text, if the type says which it is.
    open spec fn internal_text(self) -> Option<Seq<char>> {
        None
    }

    fn static_str_internal(self) -> (s: &'static str)
        ensures
            self.internal_text() matches Some(text) ==> s@ == text,
    ;
}

impl<T: WritableStaticStrAndStr + ?Sized> WritableStaticStrInternal for &T {
    open spec fn internal_text(self) -> Option<Seq<char>> {
        self.static_text()
    }

    #[inline]
    fn static_str_internal(self) -> (s: &'static str) {
        self.static_str_and_str()
    }
}

/// Something that is written as a text that lives for ever.
pub trait WritableStaticStr {
    /// The text, if the type says which it is.
    open spec fn static_str_text(&self) -> Option<Seq<char>> {
        None
    }

    fn static_str(&self) -> (s: &'static str)
        ensures
            self.static_str_text() matches Some(text) ==> s@ == text,
    ;
}

impl<T: WritableStaticStrAndStr> WritableStaticStr for T {
    open spec fn static_str_text(&self) -> Option<Seq<char>> {
        self.static_text()
    }

    #[inline]
    fn static_str(&self) -> (s: &'static str) {
        self.static_str_and_str()
    }
}

/// Something that is written as a text that it holds.
pub trait WritableStr {
    /// The text, if the type says which it is.
    open spec fn str_text(&self) -> Option<Seq<char>> {
        None
    }

    fn str(&self) -> (s: &str)
        ensures
            self.str_text() matches Some(text) ==> s@ == text,
    ;
}

impl<T: WritableStaticStrAndStr + ?Sized> WritableStr for T {
    open spec fn str_text(&self) -> Option<Seq<char>> {
        self.static_text()
    }

    #[inline]
    fn str(&self) -> (s: &str) {
        self.static_str_and_str()
    }
}

impl WritableStr for str {
    open spec fn str_text(&self) -> Option<Seq<char>> {
        Some(self@)
    }

    #[inline]
    fn str(&self) -> (s: &str) {
        self
    }
}

impl<T: WritableStr + ?Sized> Writable for T {
    open spec fn writable_pieces(&self) -> Option<Seq<Seq<char>>> {
        match self.str_text() {
            Some(text) => Some(seq![text]),
            None => None,
        }
    }

    #[inline]
    fn write_to<W: Write>(&self, w: &mut W) -> (r: Result<(), W::Error>) {
        let ghost start = *w;
        let r = w.write_str(self.str());
        proof {
            if self.str_text() is Some {
                crate::render::lemma_run_piece(start, self.str_text()->Some_0, *w, r);
            }
        }
        r
    }

    #[inline]
    fn len_hint(&self) -> (n: usize)
        ensures
            self.str_text() matches Some(text) ==> n == crate::utils::byte_len(text),
    {
        proof {
            if self.str_text() is Some {
                crate::compile::lemma_flatten_one(self.str_text()->Some_0);
            }
        }
        crate::value::byte_length(self.str())
    }
}

impl Writable for i32 {
    open spec fn writable_pieces(&self) -> Option<Seq<Seq<char>>> {
        Some(seq![crate::number::signed_decimal_text(*self as int)])
    }

    fn write_to<W: Write>(&self, w: &mut W) -> (r: Result<(), W::Error>) {
        let ghost start = *w;
        let text = crate::number::signed_to_text(*self as i64);
        let r = w.write_str(text.as_str());
        proof {
            crate::render::lemma_run_piece(start, text@, *w, r);
        }
        r
    }
}

impl WritableDebug for bool {
    open spec fn debug_pieces(&self) -> Option<Seq<Seq<char>>> {
        Some(seq![crate::value::bool_text(*self)])
    }

    fn write_to_debug<W: Write>(&self, w: &mut W) -> (r: Result<(), W::Error>) {
        let ghost start = *w;
        let r = w.write_str(crate::value::bool_str(*self));
        proof {
            crate::render::lemma_run_piece(start, crate::value::bool_text(*self), *w, r);
        }
        r
    }
}

impl WritableBinary for u64 {
    open spec fn binary_pieces(&self) -> Option<Seq<Seq<char>>> {
        Some(seq![crate::number::radix_text(*self as nat, 2, false)])
    }

    fn write_to_binary<W: Write>(&self, w: &mut W) -> (r: Result<(), W::Error>) {
        let ghost start = *w;
        let text = crate::number::radix_to_text(*self, 2, false);
        let r = w.write_str(text.as_str());
        proof {
            crate::render::lemma_run_piece(start, text@, *w, r);
        }
        r
    }
}

impl WritableHexadecimal for u64 {
    open spec fn hexadecimal_pieces(&self) -> Option<Seq<Seq<char>>> {
        Some(seq![crate::number::radix_text(*self as nat, 16, false)])
    }

    fn write_to_hexadecimal<W: Write>(&self, w: &mut W) -> (r: Result<(), W::Error>) {
        let ghost start = *w;
        let text = crate::number::radix_to_text(*self, 16, false);
        let r = w.write_str(text.as_str());
        proof {
            crate::render::lemma_run_piece(start, text@, *w, r);
        }
        r
    }
}

/// What every sink offers for what is [`Writable`].
pub trait WriteWritable: Write {
    /// Writes `wt` and flushes.
    fn write<WT: Writable + ?Sized>(&mut self, wt: &WT) -> (r: Result<(), Self::Error>)
        ensures
            wt.writable_pieces() matches Some(pieces) ==> crate::write::run(
                *old(self),
                crate::write::text_ops(pieces).push(crate::write::SinkOp::Flush),
                *final(self),
                r,
            ),
    ;
}

impl<W: Write> WriteWritable for W {
    fn write<WT: Writable + ?Sized>(&mut self, wt: &WT) -> (r: Result<(), Self::Error>) {
        let ghost start = *self;
        let written = wt.write_to(self);
        match written {
            Ok(()) => {
                proof {
                    crate::write::lemma_ok_is_unit(written);
                }
            },
            Err(e) => {
                proof {
                    if wt.writable_pieces() is Some {
                        let ops = crate::write::text_ops(wt.writable_pieces()->Some_0);
                        crate::write::lemma_run_failed_extend(
                            start,
                            ops,
                            *self,
                            written,
                            seq![crate::write::SinkOp::Flush],
                        );
                        assert(ops + seq![crate::write::SinkOp::Flush] =~= ops.push(
                            crate::write::SinkOp::Flush,
                        ));
                    }
                }
                return Err(e);
            },
        }
        let ghost mid = *self;
        self.flush_hint();
        proof {
            if wt.writable_pieces() is Some {
                let ops = crate::write::text_ops(wt.writable_pieces()->Some_0);
                crate::write::lemma_run_push(
                    start,
                    ops,
                    mid,
                    crate::write::SinkOp::Flush,
                    *self,
                    Ok(()),
                );
            }
        }
        Ok(())
    }
}

/// Writes into a new `String`.
pub trait ToString {
    /// The text that comes out, if the type says which it is.
    open spec fn written_text(&self) -> Option<Seq<char>> {
        None
    }

    fn to_string(&self) -> (s: String)
        ensures
            self.written_text() matches Some(text) ==> s@ == text,
    ;
}

impl<T: Writable + ?Sized> ToString for T {
    open spec fn written_text(&self) -> Option<Seq<char>> {
        match self.writable_pieces() {
            Some(pieces) => Some(pieces.flatten()),
            None => None,
        }
    }

    fn to_string(&self) -> (s: String) {
        let mut s = crate::write::presized_string(self.len_hint());
        let ghost start = s;
        let r = self.write_to(&mut s);
        proof {
            if self.writable_pieces() is Some {
                let pieces = self.writable_pieces()->Some_0;
                crate::write::lemma_run_string(start, crate::write::text_ops(pieces), s, r);
                crate::write::lemma_text_ops_text(pieces);
                assert(start@ + pieces.flatten() =~= pieces.flatten());
            }
        }
        s
    }
}

/// A value together with what is written for it.
pub struct WithWritableStr<T, U> {
    pub value: T,
    pub writable: U,
}

impl<T, U> WithWritableStr<T, U> {
    pub fn new(value: T, displayable: U) -> (r: Self)
        ensures
            r.value == value,
            r.writable == displayable,
    {
        Self { value, writable: displayable }
    }

    /// The same text with the value mapped by `f`.
    pub fn map_value<V, F: FnOnce(T) -> V>(self, f: F) -> (r: WithWritableStr<V, U>)
        requires
            call_requires(f, (self.value,)),
        ensures
            call_ensures(f, (self.value,), r.value),
            r.writable == self.writable,
    {
        WithWritableStr { value: f(self.value), writable: self.writable }
    }

    /// The same text with `value` in place of the value.
    pub fn replace_value<V>(self, value: V) -> (r: WithWritableStr<V, U>)
        ensures
            r.value == value,
            r.writable == self.writable,
    {
        WithWritableStr { value, writable: self.writable }
    }
}

impl<'a, T, U: WritableStr + ?Sized> WritableStr for WithWritableStr<T, &'a U> {
    open spec fn str_text(&self) -> Option<Seq<char>> {
        self.writable.str_text()
    }

    fn str(&self) -> (s: &str) {
        self.writable.str()
    }
}

} // verus!
