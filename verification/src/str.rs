//! Text that a value stands for: fixed for its type, fixed for the value, or
//! borrowed from it; and characters that are known to be ASCII.

use vstd::prelude::*;
use crate::write_to::FmtAdvanced;

verus! {

/// Something whose rendering is a piece of text that it holds.
pub trait FmtStr: FmtAdvanced<Target = str> {
    fn fmt_str(&self) -> (s: &str)
        ensures
            self.formatted() is Some ==> Some(seq![s@]) == self.formatted(),
    ;
}

impl<T: FmtAdvanced<Target = str> + ?Sized> FmtStr for T {
    #[inline]
    fn fmt_str(&self) -> (s: &str) {
        self.fmt_advanced()
    }
}

/// A type whose every value is rendered as the same text.
pub trait ConstStr {
    const CONST_STR: &'static str;
}

/// Something that is rendered as a text that lives for ever.
pub trait FmtStaticStrImpl {
    /// The text, if the type says which it is.
    open spec fn static_text(&self) -> Option<Seq<char>> {
        None
    }

    fn fmt_static_str_impl(&self) -> (s: &'static str)
        ensures
            self.static_text() matches Some(text) ==> s@ == text,
    ;
}

impl<T: ConstStr + ?Sized> FmtStaticStrImpl for T {
    open spec fn static_text(&self) -> Option<Seq<char>> {
        Some(T::CONST_STR@)
    }

    #[inline]
    fn fmt_static_str_impl(&self) -> (s: &'static str) {
        Self::CONST_STR
    }
}

/// Something that is rendered as a text that lives for ever.
pub trait FmtStaticStr {
    /// The text, if the type says which it is.
    open spec fn fmt_static_text(&self) -> Option<Seq<char>> {
        None
    }

    fn fmt_static_str(&self) -> (s: &'static str)
        ensures
            self.fmt_static_text() matches Some(text) ==> s@ == text,
    ;
}

impl<T: FmtStaticStrImpl> FmtStaticStr for T {
    open spec fn fmt_static_text(&self) -> Option<Seq<char>> {
        self.static_text()
    }

    #[inline]
    fn fmt_static_str(&self) -> (s: &'static str) {
        self.fmt_static_str_impl()
    }
}

impl FmtStaticStrImpl for bool {
    open spec fn static_text(&self) -> Option<Seq<char>> {
        Some(crate::value::bool_text(*self))
    }

    #[inline]
    fn fmt_static_str_impl(&self) -> (s: &'static str) {
        crate::value::bool_str(*self)
    }
}

impl FmtAdvanced for bool {
    type Target = str;

    open spec fn formatted(&self) -> Option<Seq<Seq<char>>> {
        Some(seq![crate::value::bool_text(*self)])
    }

    #[inline]
    fn fmt_advanced(&self) -> (target: &Self::Target) {
        self.fmt_static_str_impl()
    }
}

/// A character that is known to be ASCII.
#[derive(Clone, Copy, Debug, PartialEq, Eq)]
pub struct AsciiChar {
    code: u8,
}

impl AsciiChar {
    #[verifier::type_invariant]
    closed spec fn inv(self) -> bool {
        self.code < 128
    }

    /// The number of the character.
    pub closed spec fn code(self) -> u8 {
        self.code
    }

    /// The character with number `code`.
    pub fn new(code: u8) -> (c: AsciiChar)
        requires
            code < 128,
        ensures
            c.code() == code,
    {
        AsciiChar { code }
    }

    /// The character with number `code`, if there is one.
    pub fn from_u8(code: u8) -> (r: Option<AsciiChar>)
        ensures
            r is Some <==> code < 128,
            r matches Some(c) ==> c.code() == code,
    {
        if code < 128 {
            Some(AsciiChar { code })
        } else {
            None
        }
    }

    /// The character of the decimal digit `value`.
    pub fn digit(value: u8) -> (c: AsciiChar)
        requires
            value <= 9,
        ensures
            c.code() == 48 + value,
    {
        AsciiChar { code: 48 + value }
    }

    /// The number of the character.
    pub fn to_u8(self) -> (code: u8)
        ensures
            code == self.code(),
            code < 128,
    {
        proof {
            use_type_invariant(self);
        }
        self.code
    }
}

/// Something that is, as it stands, a character known to be ASCII.
pub trait TransmuteToAsciiChar: Sized {
    /// The number of the character, if the type says which it is.
    open spec fn ascii_code(self) -> Option<u8> {
        None
    }

    fn transmute_to_ascii_char(self) -> (c: AsciiChar)
        ensures
            self.ascii_code() matches Some(code) ==> c.code() == code,
    ;
}

impl TransmuteToAsciiChar for AsciiChar {
    open spec fn ascii_code(self) -> Option<u8> {
        Some(self.code())
    }

    #[inline]
    fn transmute_to_ascii_char(self) -> (c: AsciiChar) {
        self
    }
}

impl TransmuteToAsciiChar for crate::terminal::prompt::unsigned_int::Digit {
    open spec fn ascii_code(self) -> Option<u8> {
        Some((48 + self.value()) as u8)
    }

    #[inline]
    fn transmute_to_ascii_char(self) -> (c: AsciiChar) {
        self.as_parent()
    }
}

} // verus!
