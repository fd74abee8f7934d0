//! Typing a whole number, digit by digit.

use vstd::prelude::*;
use vstd::string::StringExecFns;
use super::{Back, Decision, Outcome, Quit};
use crate::ansi::ClearMode;
use crate::str::AsciiChar;
use crate::template::{Coord, Count, Directive, PartView, Slot, Token};
use crate::terminal::event::{Key, KeyCode};
use crate::value::{Capture, RenderMode, Value, ValueView};

verus! {

/// A question that is answered by a whole number, and what holds the number
/// to what is wanted.
#[derive(Debug)]
pub struct UnsignedInt<'q, F> {
    question: &'q str,
    validator: F,
}

/// The validator that lets every number pass as it is.
#[derive(Debug, Clone, Copy, PartialEq, Eq)]
pub struct Accept;

impl Accept {
    /// Lets `value` pass.
    pub fn validate<T>(&self, value: T) -> (r: Result<T, &'static str>)
        ensures
            r == Ok::<T, &'static str>(value),
    {
        Ok(value)
    }
}

/// What holds a number to what is wanted: it lets the number pass, as it is
/// or as something made of it, or says why it does not.
pub trait Validator<TIn> {
    /// What a number that passes is handed on as.
    type Output;

    /// The numbers that the validator can be asked about.
    open spec fn allows(&self, value: TIn) -> bool {
        true
    }

    /// What the validator may say of `value`, if the type says so.
    open spec fn verdict(&self, value: TIn, r: Result<Self::Output, &'static str>) -> bool {
        true
    }

    fn check(&self, value: TIn) -> (r: Result<Self::Output, &'static str>)
        requires
            self.allows(value),
        ensures
            self.verdict(value, r),
    ;
}

impl<TIn> Validator<TIn> for Accept {
    type Output = TIn;

    open spec fn verdict(&self, value: TIn, r: Result<TIn, &'static str>) -> bool {
        r == Ok::<TIn, &'static str>(value)
    }

    fn check(&self, value: TIn) -> (r: Result<TIn, &'static str>) {
        self.validate(value)
    }
}

/// A function from a number to what it passes as, or to why it does not, is
/// a validator: it says what the function says.
impl<TIn, TOut, F: Fn(TIn) -> Result<TOut, &'static str>> Validator<TIn> for F {
    type Output = TOut;

    open spec fn allows(&self, value: TIn) -> bool {
        call_requires(*self, (value,))
    }

    open spec fn verdict(&self, value: TIn, r: Result<TOut, &'static str>) -> bool {
        call_ensures(*self, (value,), r)
    }

    fn check(&self, value: TIn) -> (r: Result<TOut, &'static str>) {
        self(value)
    }
}

impl<'q, F> UnsignedInt<'q, F> {
    pub closed spec fn spec_question(&self) -> Seq<char> {
        self.question@
    }

    pub closed spec fn spec_validator(&self) -> F {
        self.validator
    }

    #[must_use]
    pub fn new_with(question: &'q str, validator: F) -> (r: Self)
        ensures
            r.spec_question() == question@,
            r.spec_validator() == validator,
    {
        Self { question, validator }
    }

    #[must_use]
    #[inline]
    pub fn question(&self) -> (q: &'q str)
        ensures
            q@ == self.spec_question(),
    {
        self.question
    }

    #[must_use]
    #[inline]
    pub fn validator(&self) -> (v: &F)
        ensures
            *v == self.spec_validator(),
    {
        &self.validator
    }
}

impl<'q> UnsignedInt<'q, Accept> {
    /// The question, with every number let pass.
    #[must_use]
    pub fn new(question: &'q str) -> (r: Self)
        ensures
            r.spec_question() == question@,
    {
        Self { question, validator: Accept }
    }
}

/// One of the ten decimal digits.
#[derive(Debug, Clone, Copy, PartialEq, Eq, Structural)]
pub enum Digit {
    Digit0,
    Digit1,
    Digit2,
    Digit3,
    Digit4,
    Digit5,
    Digit6,
    Digit7,
    Digit8,
    Digit9,
}

impl Digit {
    /// The number the digit stands for.
    pub open spec fn value(self) -> nat {
        match self {
            Digit::Digit0 => 0,
            Digit::Digit1 => 1,
            Digit::Digit2 => 2,
            Digit::Digit3 => 3,
            Digit::Digit4 => 4,
            Digit::Digit5 => 5,
            Digit::Digit6 => 6,
            Digit::Digit7 => 7,
            Digit::Digit8 => 8,
            Digit::Digit9 => 9,
        }
    }

    /// The character of the digit.
    pub open spec fn to_char(self) -> char {
        crate::number::digit_char(self.value())
    }

    /// The digit that `c` is, if it is one.
    pub open spec fn of_char(c: char) -> Option<Digit> {
        if c == '0' {
            Some(Digit::Digit0)
        } else if c == '1' {
            Some(Digit::Digit1)
        } else if c == '2' {
            Some(Digit::Digit2)
        } else if c == '3' {
            Some(Digit::Digit3)
        } else if c == '4' {
            Some(Digit::Digit4)
        } else if c == '5' {
            Some(Digit::Digit5)
        } else if c == '6' {
            Some(Digit::Digit6)
        } else if c == '7' {
            Some(Digit::Digit7)
        } else if c == '8' {
            Some(Digit::Digit8)
        } else if c == '9' {
            Some(Digit::Digit9)
        } else {
            None
        }
    }

    /// The number the digit stands for.
    #[inline]
    pub fn as_u8(self) -> (n: u8)
        ensures
            n == self.value(),
    {
        match self {
            Digit::Digit0 => 0,
            Digit::Digit1 => 1,
            Digit::Digit2 => 2,
            Digit::Digit3 => 3,
            Digit::Digit4 => 4,
            Digit::Digit5 => 5,
            Digit::Digit6 => 6,
            Digit::Digit7 => 7,
            Digit::Digit8 => 8,
            Digit::Digit9 => 9,
        }
    }

    /// The digit as a character that is known to be ASCII.
    pub fn as_parent(self) -> (c: AsciiChar)
        ensures
            c.code() == 48 + self.value(),
    {
        AsciiChar::digit(self.as_u8())
    }

    /// The digit that `value` is, if it is one.
    pub fn try_from_parent(value: AsciiChar) -> (r: Result<Digit, ()>)
        ensures
            r is Ok <==> 48 <= value.code() <= 57,
            r matches Ok(d) ==> d.value() == value.code() - 48,
    {
        let code = value.to_u8();
        if code == 48 {
            Ok(Digit::Digit0)
        } else if code == 49 {
            Ok(Digit::Digit1)
        } else if code == 50 {
            Ok(Digit::Digit2)
        } else if code == 51 {
            Ok(Digit::Digit3)
        } else if code == 52 {
            Ok(Digit::Digit4)
        } else if code == 53 {
            Ok(Digit::Digit5)
        } else if code == 54 {
            Ok(Digit::Digit6)
        } else if code == 55 {
            Ok(Digit::Digit7)
        } else if code == 56 {
            Ok(Digit::Digit8)
        } else if code == 57 {
            Ok(Digit::Digit9)
        } else {
            Err(())
        }
    }

    /// The digit that `value` is, if it is one.
    #[inline]
    pub fn try_from(value: char) -> (r: Result<Digit, ()>)
        ensures
            r is Ok <==> Digit::of_char(value) is Some,
            r matches Ok(d) ==> Digit::of_char(value) == Some(d) && d.to_char() == value,
    {
        match char_try_into_ascii_char(value) {
            Some(ascii) => Digit::try_from_parent(ascii),
            None => Err(()),
        }
    }

    /// The text of the digit.
    pub fn as_str(self) -> (s: &'static str)
        ensures
            s@ == seq![self.to_char()],
    {
        crate::number::digit_text(self.as_u8() as u64, false)
    }
}

/// The character as one that is known to be ASCII, if it is.
#[inline]
pub fn char_try_into_ascii_char(char: char) -> (r: Option<AsciiChar>)
    ensures
        r is Some <==> (char as u32) < 128,
        r matches Some(ascii) ==> ascii.code() == char as u32,
{
    let code = char as u32;
    if code < 128 {
        Some(AsciiChar::new(code as u8))
    } else {
        None
    }
}

/// The number that digits stand for, the first digit counting most; no digit
/// stands for zero.
pub open spec fn digits_value(digits: Seq<Digit>) -> nat
    decreases digits.len(),
{
    if digits.len() == 0 {
        0
    } else {
        digits_value(digits.drop_last()) * 10 + digits.last().value()
    }
}

/// Digits seen as text: the character of each, in order.
pub open spec fn digits_text(digits: Seq<Digit>) -> Seq<char> {
    Seq::new(digits.len(), |i: int| digits[i].to_char())
}

/// The number of the first digits is never more than the number of all.
pub proof fn lemma_digits_value_grows(digits: Seq<Digit>, k: int)
    requires
        0 <= k <= digits.len(),
    ensures
        digits_value(digits.take(k)) <= digits_value(digits),
    decreases digits.len() - k,
{
    if k == digits.len() {
        assert(digits.take(k) =~= digits);
    } else {
        lemma_digits_value_grows(digits, k + 1);
        assert(digits.take(k + 1).drop_last() =~= digits.take(k));
    }
}

/// Digits seen as text, with nothing looked at twice.
pub fn digits_fmt_str(digits: &[Digit]) -> (s: String)
    ensures
        s@ == digits_text(digits@),
{
    let mut s = String::new();
    let mut i: usize = 0;
    proof {
        assert(s@ =~= digits_text(digits@.take(0)));
    }
    while i < digits.len()
        invariant
            i <= digits.len(),
            s@ == digits_text(digits@.take(i as int)),
        decreases digits.len() - i,
    {
        let ghost before = s@;
        s.append(digits[i].as_str());
        proof {
            assert(s@ =~= digits_text(digits@.take(i + 1)));
        }
        i = i + 1;
    }
    proof {
        assert(digits@.take(i as int) =~= digits@);
    }
    s
}

/// A kind of whole number that digits can be read as.
pub trait FromDigits: Sized {
    /// The greatest number of the kind.
    spec fn limit() -> u64;

    /// The number itself.
    spec fn number(self) -> nat;

    /// `value` as a number of the kind, if it is not too great.
    fn from_wide(value: u64) -> (r: Option<Self>)
        ensures
            r is Some <==> value <= Self::limit(),
            r matches Some(x) ==> x.number() == value,
    ;
}

impl FromDigits for u8 {
    open spec fn limit() -> u64 {
        u8::MAX as u64
    }

    open spec fn number(self) -> nat {
        self as nat
    }

    fn from_wide(value: u64) -> (r: Option<Self>) {
        if value <= 0xff {
            Some(value as u8)
        } else {
            None
        }
    }
}

impl FromDigits for u16 {
    open spec fn limit() -> u64 {
        u16::MAX as u64
    }

    open spec fn number(self) -> nat {
        self as nat
    }

    fn from_wide(value: u64) -> (r: Option<Self>) {
        if value <= 0xffff {
            Some(value as u16)
        } else {
            None
        }
    }
}

impl FromDigits for u32 {
    open spec fn limit() -> u64 {
        u32::MAX as u64
    }

    open spec fn number(self) -> nat {
        self as nat
    }

    fn from_wide(value: u64) -> (r: Option<Self>) {
        if value <= 0xffff_ffff {
            Some(value as u32)
        } else {
            None
        }
    }
}

impl FromDigits for u64 {
    open spec fn limit() -> u64 {
        u64::MAX
    }

    open spec fn number(self) -> nat {
        self as nat
    }

    fn from_wide(value: u64) -> (r: Option<Self>) {
        Some(value)
    }
}

/// The number that the digits stand for, if it fits 64 bits.
pub fn digits_to_wide(digits: &[Digit]) -> (r: Option<u64>)
    ensures
        r is Some <==> digits_value(digits@) <= u64::MAX,
        r matches Some(v) ==> v == digits_value(digits@),
{
    let mut value: u64 = 0;
    let mut i: usize = 0;
    proof {
        assert(digits@.take(0) =~= Seq::<Digit>::empty());
    }
    while i < digits.len()
        invariant
            i <= digits.len(),
            value == digits_value(digits@.take(i as int)),
        decreases digits.len() - i,
    {
        let d = digits[i].as_u8() as u64;
        proof {
            assert(digits@.take(i + 1).drop_last() =~= digits@.take(i as int));
            assert(digits@.take(i + 1).last() == digits@[i as int]);
            lemma_digits_value_grows(digits@, i + 1);
        }
        if value > (u64::MAX - d) / 10 {
            proof {
                assert(value * 10 + d > u64::MAX) by (nonlinear_arith)
                    requires
                        value > (u64::MAX - d) / 10,
                        d <= 9,
                ;
            }
            return None;
        }
        proof {
            assert(value * 10 + d <= u64::MAX) by (nonlinear_arith)
                requires
                    value <= (u64::MAX - d) / 10,
                    d <= 9,
            ;
        }
        value = value * 10 + d;
        i = i + 1;
    }
    proof {
        assert(digits@.take(i as int) =~= digits@);
    }
    Some(value)
}

/// The number that the digits stand for, if it is no more than the kind of
/// number asked for can hold. No digit at all stands for zero.
#[inline]
pub fn digits_to_number<T: FromDigits>(digits: &[Digit]) -> (r: Option<T>)
    ensures
        r is Some <==> digits_value(digits@) <= T::limit(),
        r matches Some(x) ==> x.number() == digits_value(digits@),
{
    match digits_to_wide(digits) {
        Some(value) => T::from_wide(value),
        None => None,
    }
}

/// The digits typed so far, and where in them the cursor stands.
#[derive(Debug)]
pub struct DigitBuffer {
    digits: Vec<Digit>,
    cursor_x: u16,
}

/// What the prompt does after a key.
#[derive(Clone, Copy, Debug, PartialEq, Eq, Structural)]
pub enum UnsignedIntAction {
    /// The number is handed in.
    Submit,
    Back,
    Quit,
    /// The digits changed: the line of the value is drawn again.
    RedrawValue,
    /// Only the cursor moved.
    MoveCursor,
    Ignore,
}

/// `x + 1`, or the greatest column if that is less.
pub open spec fn next_column(x: u16) -> u16 {
    if x == u16::MAX {
        u16::MAX
    } else {
        (x + 1) as u16
    }
}

/// What a key does to the digits and the cursor, and what the prompt does
/// after it.
pub open spec fn spec_step(digits: Seq<Digit>, x: u16, key: Key) -> (
    Seq<Digit>,
    u16,
    UnsignedIntAction,
) {
    if crate::terminal::event::spec_is_continue(key) {
        (digits, x, UnsignedIntAction::Submit)
    } else if crate::terminal::event::spec_is_back(key) {
        (digits, x, UnsignedIntAction::Back)
    } else if crate::terminal::event::spec_is_quit(key) {
        (digits, x, UnsignedIntAction::Quit)
    } else {
        match key.0 {
            KeyCode::Char(c) => match Digit::of_char(c) {
                Some(d) => (digits.insert(x as int, d), next_column(x), UnsignedIntAction::RedrawValue),
                None => (digits, x, UnsignedIntAction::Ignore),
            },
            KeyCode::Delete => if x >= digits.len() {
                (digits, x, UnsignedIntAction::Ignore)
            } else {
                (digits.remove(x as int), x, UnsignedIntAction::RedrawValue)
            },
            KeyCode::Backspace => if digits.len() == 0 || x == 0 {
                (digits, x, UnsignedIntAction::Ignore)
            } else {
                (digits.remove(x - 1), (x - 1) as u16, UnsignedIntAction::RedrawValue)
            },
            KeyCode::Left => if x == 0 {
                (digits, x, UnsignedIntAction::Ignore)
            } else {
                (digits, (x - 1) as u16, UnsignedIntAction::MoveCursor)
            },
            KeyCode::Right => if x >= digits.len() {
                (digits, x, UnsignedIntAction::Ignore)
            } else {
                (digits, next_column(x), UnsignedIntAction::MoveCursor)
            },
            _ => (digits, x, UnsignedIntAction::Ignore),
        }
    }
}

impl DigitBuffer {
    /// What holds of every buffer: the cursor stands before a digit or
    /// after the last.
    pub closed spec fn wf(&self) -> bool {
        self.cursor_x <= self.digits@.len()
    }

    /// The digits typed so far.
    pub closed spec fn spec_digits(&self) -> Seq<Digit> {
        self.digits@
    }

    /// Before which digit the cursor stands.
    pub closed spec fn spec_cursor_x(&self) -> u16 {
        self.cursor_x
    }

    /// No digit, and the cursor at the start.
    pub fn new() -> (r: Self)
        ensures
            r.wf(),
            r.spec_digits() == Seq::<Digit>::empty(),
            r.spec_cursor_x() == 0,
    {
        DigitBuffer { digits: Vec::new(), cursor_x: 0 }
    }

    pub fn digits(&self) -> (r: &Vec<Digit>)
        ensures
            r@ == self.spec_digits(),
    {
        &self.digits
    }

    pub fn cursor_x(&self) -> (x: u16)
        ensures
            x == self.spec_cursor_x(),
            self.wf() ==> x <= self.spec_digits().len(),
    {
        self.cursor_x
    }

    /// The column of the screen on which the cursor stands; columns count
    /// from one.
    pub fn cursor_column(&self) -> (column: u16)
        ensures
            column == next_column(self.spec_cursor_x()),
    {
        if self.cursor_x == u16::MAX {
            u16::MAX
        } else {
            self.cursor_x + 1
        }
    }

    /// Takes one key.
    pub fn step(&mut self, key: &Key) -> (action: UnsignedIntAction)
        requires
            old(self).wf(),
        ensures
            final(self).wf(),
            (final(self).spec_digits(), final(self).spec_cursor_x(), action) == spec_step(
                old(self).spec_digits(),
                old(self).spec_cursor_x(),
                *key,
            ),
    {
        if crate::terminal::event::is_continue(key) {
            return UnsignedIntAction::Submit;
        }
        if crate::terminal::event::is_back(key) {
            return UnsignedIntAction::Back;
        }
        if crate::terminal::event::is_quit(key) {
            return UnsignedIntAction::Quit;
        }
        let x = self.cursor_x;
        let next = if x == u16::MAX {
            u16::MAX
        } else {
            x + 1
        };
        match key.0 {
            KeyCode::Char(c) => match Digit::try_from(c) {
                Ok(d) => {
                    self.digits.insert(x as usize, d);
                    self.cursor_x = next;
                    UnsignedIntAction::RedrawValue
                },
                Err(_) => UnsignedIntAction::Ignore,
            },
            KeyCode::Delete => {
                if x as usize >= self.digits.len() {
                    UnsignedIntAction::Ignore
                } else {
                    self.digits.remove(x as usize);
                    UnsignedIntAction::RedrawValue
                }
            },
            KeyCode::Backspace => {
                if self.digits.len() == 0 || x == 0 {
                    UnsignedIntAction::Ignore
                } else {
                    self.cursor_x = x - 1;
                    self.digits.remove((x - 1) as usize);
                    UnsignedIntAction::RedrawValue
                }
            },
            KeyCode::Left => {
                if x == 0 {
                    UnsignedIntAction::Ignore
                } else {
                    self.cursor_x = x - 1;
                    UnsignedIntAction::MoveCursor
                }
            },
            KeyCode::Right => {
                if x as usize >= self.digits.len() {
                    UnsignedIntAction::Ignore
                } else {
                    self.cursor_x = next;
                    UnsignedIntAction::MoveCursor
                }
            },
            _ => UnsignedIntAction::Ignore,
        }
    }
}

/// What is said of a number that is too great for its kind.
pub const NUMBER_TOO_LARGE: &'static str = "number too large";

/// Reads the digits as a number and hands it to the validator. A number too
/// great for its kind is turned down without the validator being asked.
pub fn validate<TIn: FromDigits, V: Validator<TIn>>(validator: &V, digits: &[Digit]) -> (r: Result<
    V::Output,
    &'static str,
>)
    requires
        forall|value: TIn| validator.allows(value),
    ensures
        digits_value(digits@) > TIn::limit() ==> (r matches Err(message) && message@
            == NUMBER_TOO_LARGE@),
        digits_value(digits@) <= TIn::limit() ==> exists|value: TIn|
            value.number() == digits_value(digits@) && #[trigger] validator.verdict(value, r),
{
    match digits_to_number::<TIn>(digits) {
        Some(value) => validator.check(value),
        None => Err(NUMBER_TOO_LARGE),
    }
}

/// What the line of the value expands to: the cursor is hidden, the line is
/// reset, the first line of the value is shown, and the cursor is put on its
/// column and shown again.
pub open spec fn value_line_parts(
    value: Seq<char>,
    column: u16,
    start: Seq<PartView>,
    end: Seq<PartView>,
) -> Seq<PartView> {
    start + seq![PartView::Text(crate::ansi::cursor_hide())]
        + crate::template::move_to_x_parts(Coord::Start) + seq![
        PartView::Text(crate::ansi::clear(ClearMode::CurrentLine)),
    ] + seq![super::utils::first_line_part(value)] + seq![
        PartView::Text(crate::ansi::start()),
        column_part(column),
        PartView::Text(seq!['G']),
    ] + seq![PartView::Text(crate::ansi::cursor_show())] + end
}

/// The slot that holds a column.
pub open spec fn column_part(column: u16) -> PartView {
    PartView::Slot(
        crate::template::SlotView {
            value: ValueView::Unsigned(column as u64),
            mode: RenderMode::Plain,
            capture: Capture::ByValue,
        },
    )
}

/// The template of the line of the value, with the cursor on `column`.
pub fn fmt_value(value: &str, column: u16, start: Vec<Token>, end: Vec<Token>) -> (tokens: Vec<
    Token,
>)
    ensures
        crate::template::spec_expand(tokens@) == value_line_parts(
            value@,
            column,
            crate::template::spec_expand(start@),
            crate::template::spec_expand(end@),
        ),
        crate::template::spec_rejection(tokens@) == super::utils::line_rejection(
            Seq::empty(),
            start@,
            end@,
        ),
{
    let mut end = end;
    let ghost before = start@;
    let ghost after = end@;
    let hide = Token::Directive(Directive::CursorHide);
    let reset = Token::Directive(Directive::ResetLine);
    let shown = super::utils::first_line_slot(value);
    let place = Token::Directive(
        Directive::CursorMoveToX(
            Coord::At(
                Count::Slot(
                    Slot {
                        value: Value::Unsigned(column as u64),
                        mode: RenderMode::Plain,
                        capture: Capture::ByValue,
                    },
                ),
            ),
        ),
    );
    let show = Token::Directive(Directive::CursorShow);
    let ghost middle = seq![hide, reset, shown, place, show];
    let mut tokens = start;
    tokens.push(hide);
    tokens.push(reset);
    tokens.push(shown);
    tokens.push(place);
    tokens.push(show);
    tokens.append(&mut end);
    proof {
        assert(tokens@ =~= before + middle + after);
        crate::laws::lemma_expand_concat(before, middle);
        crate::laws::lemma_expand_concat(before + middle, after);
        crate::laws::lemma_expand_one(hide);
        crate::laws::lemma_expand_one(reset);
        crate::laws::lemma_expand_one(shown);
        crate::laws::lemma_expand_one(place);
        crate::laws::lemma_expand_one(show);
        crate::laws::lemma_expand_concat(seq![hide], seq![reset]);
        crate::laws::lemma_expand_concat(seq![hide, reset], seq![shown]);
        crate::laws::lemma_expand_concat(seq![hide, reset, shown], seq![place]);
        crate::laws::lemma_expand_concat(seq![hide, reset, shown, place], seq![show]);
        assert(seq![hide] + seq![reset] =~= seq![hide, reset]);
        assert(seq![hide, reset] + seq![shown] =~= seq![hide, reset, shown]);
        assert(seq![hide, reset, shown] + seq![place] =~= seq![hide, reset, shown, place]);
        assert(seq![hide, reset, shown, place] + seq![show] =~= middle);
        assert(crate::template::spec_expand(tokens@) =~= value_line_parts(
            value@,
            column,
            crate::template::spec_expand(before),
            crate::template::spec_expand(after),
        ));
    }
    tokens
}

} // verus!
