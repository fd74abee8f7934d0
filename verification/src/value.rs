//! Values that a slot can hold, and the rendering modes that turn one into
//! text. Which text a mode gives for a value is fixed by the pair alone.

use vstd::prelude::*;
use vstd::string::StringExecFns;
use crate::number::Fixed;
use crate::write::Write;

verus! {

/// How a slot's value is turned into text.
#[derive(Clone, Copy, Debug, PartialEq, Eq)]
pub enum RenderMode {
    Plain,
    Debug,
    Binary,
    Hex,
    /// With this many fractional digits.
    Precision(u8),
    PassthroughDisplay,
    PassthroughDebug,
    PassthroughBinary,
    PassthroughHex,
    PassthroughPrecision(u8),
}

/// How a slot's value reaches the renderer.
#[derive(Clone, Copy, Debug, PartialEq, Eq)]
pub enum Capture {
    ByReference,
    ByValue,
}

/// A value in a slot.
#[derive(Debug)]
pub enum Value {
    Text(String),
    Bool(bool),
    Unsigned(u64),
    Signed(i64),
    Fixed(Fixed),
}

/// A value as contracts see it.
pub enum ValueView {
    Text(Seq<char>),
    Bool(bool),
    Unsigned(u64),
    Signed(i64),
    Fixed(Fixed),
}

impl View for Value {
    type V = ValueView;

    open spec fn view(&self) -> ValueView {
        match self {
            Value::Text(s) => ValueView::Text(s@),
            Value::Bool(b) => ValueView::Bool(*b),
            Value::Unsigned(n) => ValueView::Unsigned(*n),
            Value::Signed(i) => ValueView::Signed(*i),
            Value::Fixed(f) => ValueView::Fixed(*f),
        }
    }
}

/// `true` or `false`.
pub open spec fn bool_text(b: bool) -> Seq<char> {
    if b {
        seq!['t', 'r', 'u', 'e']
    } else {
        seq!['f', 'a', 'l', 's', 'e']
    }
}

/// The first `n` characters of `t`, or all of it if it has fewer.
pub open spec fn truncated(t: Seq<char>, n: nat) -> Seq<char> {
    if n < t.len() {
        t.take(n as int)
    } else {
        t
    }
}

impl ValueView {
    /// Whether it is a whole number.
    pub open spec fn is_integer(self) -> bool {
        self is Unsigned || self is Signed
    }

    /// The whole number it holds.
    pub open spec fn integer(self) -> int {
        match self {
            ValueView::Unsigned(n) => n as int,
            ValueView::Signed(i) => i as int,
            _ => 0,
        }
    }

    /// The 64 bits of the whole number it holds.
    pub open spec fn bits(self) -> nat {
        crate::number::twos_complement(self.integer())
    }

    /// Whether a value of this kind can be rendered in `mode`.
    pub open spec fn supports(self, mode: RenderMode) -> bool {
        match mode {
            RenderMode::Plain | RenderMode::Debug => true,
            RenderMode::Binary | RenderMode::Hex | RenderMode::PassthroughBinary
            | RenderMode::PassthroughHex => self.is_integer(),
            RenderMode::Precision(_) => self.is_integer() || self is Fixed,
            RenderMode::PassthroughDisplay | RenderMode::PassthroughDebug
            | RenderMode::PassthroughPrecision(_) => !(self is Fixed),
        }
    }

    /// The text of the value as it stands.
    pub open spec fn plain(self) -> Seq<char> {
        match self {
            ValueView::Text(t) => t,
            ValueView::Bool(b) => bool_text(b),
            ValueView::Unsigned(n) => crate::number::decimal_text(n as nat),
            ValueView::Signed(i) => crate::number::signed_decimal_text(i as int),
            ValueView::Fixed(f) => f.text(),
        }
    }

    /// The text of the value in `mode`; no text where the mode is not
    /// supported.
    pub open spec fn rendered(self, mode: RenderMode) -> Seq<char> {
        if !self.supports(mode) {
            Seq::empty()
        } else {
            match mode {
                RenderMode::Plain | RenderMode::Debug | RenderMode::PassthroughDisplay => {
                    self.plain()
                },
                RenderMode::Binary | RenderMode::PassthroughBinary => crate::number::radix_text(
                    self.bits(),
                    2,
                    false,
                ),
                RenderMode::Hex => crate::number::radix_text(self.bits(), 16, false),
                RenderMode::PassthroughHex => crate::number::radix_text(self.bits(), 16, true),
                RenderMode::Precision(n) => match self {
                    ValueView::Fixed(f) => f.text_with_precision(n),
                    _ => crate::number::precision_text(
                        self.integer() < 0,
                        vstd::math::abs(self.integer()),
                        0,
                        n as nat,
                    ),
                },
                RenderMode::PassthroughDebug => match self {
                    ValueView::Text(t) => crate::number::std_debug_text(t),
                    _ => self.plain(),
                },
                RenderMode::PassthroughPrecision(n) => match self {
                    ValueView::Text(t) => truncated(t, n as nat),
                    ValueView::Bool(b) => truncated(bool_text(b), n as nat),
                    _ => self.plain(),
                },
            }
        }
    }

    /// A lower bound, in bytes, on the text of the value in `mode`, known
    /// without rendering it: the length of text rendered as it stands, and
    /// nothing otherwise.
    pub open spec fn hint(self, mode: RenderMode) -> nat {
        match (self, mode) {
            (ValueView::Text(t), RenderMode::Plain)
            | (ValueView::Text(t), RenderMode::Debug) => crate::utils::byte_len(t),
            (ValueView::Bool(b), RenderMode::Plain)
            | (ValueView::Bool(b), RenderMode::Debug) => crate::utils::byte_len(bool_text(b)),
            _ => 0,
        }
    }
}

/// The hint of a value is never more than its rendered text is long.
pub proof fn lemma_hint_is_lower_bound(v: ValueView, mode: RenderMode)
    ensures
        v.hint(mode) <= crate::utils::byte_len(v.rendered(mode)),
{
}

/// `true` or `false`.
pub fn bool_str(b: bool) -> (s: &'static str)
    ensures
        s@ == bool_text(b),
{
    proof {
        reveal_strlit("true");
        reveal_strlit("false");
        assert("true"@ =~= bool_text(true));
        assert("false"@ =~= bool_text(false));
    }
    if b {
        "true"
    } else {
        "false"
    }
}

/// The length of `s` in bytes.
pub fn byte_length(s: &str) -> (n: usize)
    ensures
        n == crate::utils::byte_len(s@),
{
    s.as_bytes().len()
}

impl RenderMode {
    /// Whether the mode hands the value to std's formatting.
    pub fn is_passthrough(&self) -> (b: bool)
        ensures
            b == (*self is PassthroughDisplay || *self is PassthroughDebug || *self
                is PassthroughBinary || *self is PassthroughHex || *self is PassthroughPrecision),
    {
        match self {
            RenderMode::PassthroughDisplay
            | RenderMode::PassthroughDebug
            | RenderMode::PassthroughBinary
            | RenderMode::PassthroughHex
            | RenderMode::PassthroughPrecision(_) => true,
            _ => false,
        }
    }
}

impl Value {
    /// Whether the value can be rendered in `mode`.
    pub fn supports(&self, mode: &RenderMode) -> (b: bool)
        ensures
            b == self@.supports(*mode),
    {
        let integer = match self {
            Value::Unsigned(_) | Value::Signed(_) => true,
            _ => false,
        };
        let fixed = match self {
            Value::Fixed(_) => true,
            _ => false,
        };
        match mode {
            RenderMode::Plain | RenderMode::Debug => true,
            RenderMode::Binary
            | RenderMode::Hex
            | RenderMode::PassthroughBinary
            | RenderMode::PassthroughHex => integer,
            RenderMode::Precision(_) => integer || fixed,
            RenderMode::PassthroughDisplay
            | RenderMode::PassthroughDebug
            | RenderMode::PassthroughPrecision(_) => !fixed,
        }
    }

    /// The 64 bits of a whole number.
    fn integer_bits(&self) -> (bits: u64)
        requires
            self@.is_integer(),
        ensures
            bits == self@.bits(),
    {
        match self {
            Value::Unsigned(n) => *n,
            Value::Signed(i) => crate::number::bits_of(*i),
            _ => 0,
        }
    }

    /// A whole number, widened.
    fn integer_wide(&self) -> (x: i128)
        requires
            self@.is_integer(),
        ensures
            x == self@.integer(),
    {
        match self {
            Value::Unsigned(n) => *n as i128,
            Value::Signed(i) => *i as i128,
            _ => 0,
        }
    }

    /// The text of the value as it stands.
    pub fn plain_text(&self) -> (s: String)
        ensures
            s@ == self@.plain(),
    {
        match self {
            Value::Text(t) => t.clone(),
            Value::Bool(b) => String::from_str(bool_str(*b)),
            Value::Unsigned(n) => crate::number::unsigned_to_text(*n),
            Value::Signed(i) => crate::number::signed_to_text(*i),
            Value::Fixed(f) => f.to_text(),
        }
    }

    /// What std's own formatting writes for the value as it stands.
    fn std_plain_text(&self) -> (s: String)
        requires
            !(self@ is Fixed),
        ensures
            s@ == self@.plain(),
    {
        broadcast use vstd::string::to_string_from_display_ensures_for_str;

        match self {
            Value::Text(t) => t.as_str().to_string(),
            Value::Bool(b) => bool_str(*b).to_string(),
            _ => crate::number::std_display_integer(self.integer_wide()),
        }
    }

    /// The text of the value in `mode`, which it supports.
    pub fn render(&self, mode: &RenderMode) -> (s: String)
        requires
            self@.supports(*mode),
        ensures
            s@ == self@.rendered(*mode),
    {
        match mode {
            RenderMode::Plain | RenderMode::Debug => self.plain_text(),
            RenderMode::PassthroughDisplay => self.std_plain_text(),
            RenderMode::Binary => crate::number::radix_to_text(self.integer_bits(), 2, false),
            RenderMode::PassthroughBinary => crate::number::std_binary_unsigned(
                self.integer_bits(),
            ),
            RenderMode::Hex => crate::number::radix_to_text(self.integer_bits(), 16, false),
            RenderMode::PassthroughHex => crate::number::std_upper_hex_unsigned(
                self.integer_bits(),
            ),
            RenderMode::Precision(n) => match self {
                Value::Fixed(f) => f.to_text_with_precision(*n),
                Value::Unsigned(u) => Fixed::from_unsigned(*u).to_text_with_precision(*n),
                Value::Signed(i) => Fixed::from_signed(*i).to_text_with_precision(*n),
                _ => String::new(),
            },
            RenderMode::PassthroughDebug => match self {
                Value::Text(t) => crate::number::std_debug_str(t.as_str()),
                _ => self.std_plain_text(),
            },
            RenderMode::PassthroughPrecision(n) => match self {
                Value::Text(t) => crate::number::std_precision_str(t.as_str(), *n),
                Value::Bool(b) => crate::number::std_precision_str(bool_str(*b), *n),
                _ => crate::number::std_precision_integer(self.integer_wide(), *n),
            },
        }
    }

    /// The text of the value in `mode`, if it supports the mode.
    pub fn try_render(&self, mode: &RenderMode) -> (r: Option<String>)
        ensures
            r is Some <==> self@.supports(*mode),
            r matches Some(s) ==> s@ == self@.rendered(*mode),
    {
        if self.supports(mode) {
            Some(self.render(mode))
        } else {
            None
        }
    }

    /// A lower bound, in bytes, on the text of the value in `mode`.
    pub fn len_hint(&self, mode: &RenderMode) -> (n: usize)
        ensures
            n == self@.hint(*mode),
            n <= crate::utils::byte_len(self@.rendered(*mode)),
    {
        proof {
            lemma_hint_is_lower_bound(self@, *mode);
        }
        match mode {
            RenderMode::Plain | RenderMode::Debug => match self {
                Value::Text(t) => byte_length(t.as_str()),
                Value::Bool(b) => byte_length(bool_str(*b)),
                _ => 0,
            },
            _ => 0,
        }
    }

    /// Writes the value in `mode`, which it supports, as one piece.
    pub fn write_to<W: Write>(&self, mode: &RenderMode, w: &mut W) -> (r: Result<(), W::Error>)
        requires
            self@.supports(*mode),
        ensures
            W::write_step(*old(w), self@.rendered(*mode), *final(w), r),
    {
        match (self, mode) {
            (Value::Text(t), RenderMode::Plain) | (Value::Text(t), RenderMode::Debug) => {
                w.write_str(t.as_str())
            },
            (Value::Bool(b), RenderMode::Plain) | (Value::Bool(b), RenderMode::Debug) => {
                w.write_str(bool_str(*b))
            },
            _ => {
                let text = self.render(mode);
                w.write_str(text.as_str())
            },
        }
    }
}

} // verus!
