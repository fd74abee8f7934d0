//! Numbers as text: decimal, binary and hexadecimal digits of integers, and
//! decimal fractions cut or padded to a number of fractional digits.

use vstd::prelude::*;
use vstd::string::StringExecFns;

verus! {

/// The character of one digit; digits from ten up are lower-case letters.
pub open spec fn digit_char(d: nat) -> char {
    if d == 0 {
        '0'
    } else if d == 1 {
        '1'
    } else if d == 2 {
        '2'
    } else if d == 3 {
        '3'
    } else if d == 4 {
        '4'
    } else if d == 5 {
        '5'
    } else if d == 6 {
        '6'
    } else if d == 7 {
        '7'
    } else if d == 8 {
        '8'
    } else if d == 9 {
        '9'
    } else if d == 10 {
        'a'
    } else if d == 11 {
        'b'
    } else if d == 12 {
        'c'
    } else if d == 13 {
        'd'
    } else if d == 14 {
        'e'
    } else {
        'f'
    }
}

/// The character of one digit; digits from ten up are upper-case letters.
pub open spec fn digit_char_upper(d: nat) -> char {
    if d == 10 {
        'A'
    } else if d == 11 {
        'B'
    } else if d == 12 {
        'C'
    } else if d == 13 {
        'D'
    } else if d == 14 {
        'E'
    } else if d >= 15 {
        'F'
    } else {
        digit_char(d)
    }
}

/// One digit in the chosen case.
pub open spec fn digit_in_case(d: nat, upper: bool) -> char {
    if upper {
        digit_char_upper(d)
    } else {
        digit_char(d)
    }
}

/// The digits of `n` in base `radix`, most significant first, without
/// leading zeros; zero is the one digit `0`.
pub open spec fn radix_text(n: nat, radix: nat, upper: bool) -> Seq<char>
    recommends
        2 <= radix <= 16,
    decreases n,
{
    if radix < 2 || n < radix {
        seq![digit_in_case(n, upper)]
    } else {
        proof {
            lemma_quotient_is_less(n, radix);
        }
        radix_text(n / radix, radix, upper).push(digit_in_case(n % radix, upper))
    }
}

/// Dividing by two or more makes a number that is not zero smaller.
pub proof fn lemma_quotient_is_less(n: nat, radix: nat)
    requires
        radix >= 2,
        n >= radix,
    ensures
        n / radix < n,
{
    assert(n / radix < n) by (nonlinear_arith)
        requires
            radix >= 2,
            n >= radix,
    ;
}

/// `n` in decimal.
pub open spec fn decimal_text(n: nat) -> Seq<char> {
    radix_text(n, 10, false)
}

/// `v` in decimal, with a minus sign in front if it is negative.
pub open spec fn signed_decimal_text(v: int) -> Seq<char> {
    if v < 0 {
        seq!['-'] + decimal_text((-v) as nat)
    } else {
        decimal_text(v as nat)
    }
}

/// The 64 bits that stand for `v` in two's complement, as a number.
pub open spec fn twos_complement(v: int) -> nat
    recommends
        -0x8000_0000_0000_0000 <= v < 0x8000_0000_0000_0000,
{
    if v < 0 {
        (v + 0x1_0000_0000_0000_0000) as nat
    } else {
        v as nat
    }
}

/// Ten to the power `k`.
pub open spec fn pow10(k: nat) -> nat
    decreases k,
{
    if k == 0 {
        1
    } else {
        10 * pow10((k - 1) as nat)
    }
}

/// The lowest `width` decimal digits of `v`, with leading zeros.
pub open spec fn padded_decimal(v: nat, width: nat) -> Seq<char>
    decreases width,
{
    if width == 0 {
        Seq::empty()
    } else {
        padded_decimal(v / 10, (width - 1) as nat).push(digit_char(v % 10))
    }
}

/// `count` zeros.
pub open spec fn zeros(count: nat) -> Seq<char> {
    Seq::new(count, |i: int| '0')
}

/// `m` divided by ten to the `k`, rounded to the nearest whole number; a tie
/// goes to the even one.
pub open spec fn round_half_even(m: nat, k: nat) -> nat {
    let p = pow10(k);
    let q = m / p;
    let rest = m % p;
    if 2 * rest > p || (2 * rest == p && q % 2 == 1) {
        q + 1
    } else {
        q
    }
}

/// The sign that stands before a decimal fraction.
pub open spec fn sign_text(negative: bool) -> Seq<char> {
    if negative {
        seq!['-']
    } else {
        Seq::empty()
    }
}

/// The number `m / 10^scale` written out: the whole part, and after a point
/// the `scale` fractional digits, if there are any.
pub open spec fn fixed_text(negative: bool, m: nat, scale: nat) -> Seq<char> {
    sign_text(negative) + decimal_text(m / pow10(scale)) + if scale == 0 {
        Seq::empty()
    } else {
        seq!['.'] + padded_decimal(m % pow10(scale), scale)
    }
}

/// The number `m / 10^scale` written with exactly `n` fractional digits. With
/// fewer digits than it has, it is rounded to the nearest, a tie going to the
/// even digit; with more, zeros are added.
pub open spec fn precision_text(negative: bool, m: nat, scale: nat, n: nat) -> Seq<char> {
    if n < scale {
        fixed_text(negative, round_half_even(m, (scale - n) as nat), n)
    } else {
        fixed_text(negative, m, scale) + if scale == 0 && n > 0 {
            seq!['.'] + zeros(n)
        } else {
            zeros((n - scale) as nat)
        }
    }
}

/// A decimal fraction: `mantissa / 10^scale`, negative or not. It stands for
/// a number with a fractional part wherever one is formatted.
#[derive(Clone, Copy, Debug, PartialEq, Eq)]
pub struct Fixed {
    negative: bool,
    mantissa: u64,
    scale: u8,
}

/// The most fractional digits a [`Fixed`] can hold.
pub const MAX_SCALE: u8 = 19;

impl Fixed {
    /// What every `Fixed` satisfies.
    #[verifier::type_invariant]
    pub open spec fn wf(self) -> bool {
        self.spec_scale() <= MAX_SCALE
    }

    pub closed spec fn spec_negative(self) -> bool {
        self.negative
    }

    pub closed spec fn spec_mantissa(self) -> u64 {
        self.mantissa
    }

    pub closed spec fn spec_scale(self) -> u8 {
        self.scale
    }

    /// The text of the number as it is.
    pub open spec fn text(self) -> Seq<char> {
        fixed_text(self.spec_negative(), self.spec_mantissa() as nat, self.spec_scale() as nat)
    }

    /// The text of the number with `n` fractional digits.
    pub open spec fn text_with_precision(self, n: u8) -> Seq<char> {
        precision_text(
            self.spec_negative(),
            self.spec_mantissa() as nat,
            self.spec_scale() as nat,
            n as nat,
        )
    }

    /// The number `mantissa / 10^scale`, negated if `negative`; none if
    /// `scale` is more than [`MAX_SCALE`].
    pub fn new(negative: bool, mantissa: u64, scale: u8) -> (r: Option<Fixed>)
        ensures
            r is Some <==> scale <= MAX_SCALE,
            r matches Some(f) ==> f.wf() && f.spec_negative() == negative && f.spec_mantissa()
                == mantissa && f.spec_scale() == scale,
    {
        if scale <= MAX_SCALE {
            Some(Fixed { negative, mantissa, scale })
        } else {
            None
        }
    }

    /// The whole number `value`.
    pub fn from_unsigned(value: u64) -> (f: Fixed)
        ensures
            f.wf(),
            !f.spec_negative(),
            f.spec_mantissa() == value,
            f.spec_scale() == 0,
    {
        Fixed { negative: false, mantissa: value, scale: 0 }
    }

    /// The whole number `value`.
    pub fn from_signed(value: i64) -> (f: Fixed)
        ensures
            f.wf(),
            f.spec_negative() == (value < 0),
            f.spec_mantissa() == if value < 0 {
                -(value as int)
            } else {
                value as int
            },
            f.spec_scale() == 0,
    {
        Fixed { negative: value < 0, mantissa: magnitude(value), scale: 0 }
    }

    pub fn is_negative(&self) -> (b: bool)
        ensures
            b == self.spec_negative(),
    {
        self.negative
    }

    pub fn mantissa(&self) -> (m: u64)
        ensures
            m == self.spec_mantissa(),
    {
        self.mantissa
    }

    pub fn scale(&self) -> (s: u8)
        ensures
            s == self.spec_scale(),
    {
        self.scale
    }

    /// The number written out with all its fractional digits.
    pub fn to_text(&self) -> (s: String)
        ensures
            s@ == self.text(),
    {
        proof {
            use_type_invariant(self);
        }
        fixed_to_text(self.negative, self.mantissa, self.scale)
    }

    /// The number written out with `n` fractional digits.
    pub fn to_text_with_precision(&self, n: u8) -> (s: String)
        ensures
            s@ == self.text_with_precision(n),
    {
        proof {
            use_type_invariant(self);
        }
        if n < self.scale {
            let k = self.scale - n;
            let p = power_of_ten(k);
            proof {
                lemma_pow10_bounds(k as nat);
            }
            let q = self.mantissa / p;
            let rest = self.mantissa % p;
            let up = rest > p - rest || (rest == p - rest && q % 2 == 1);
            proof {
                assert(self.mantissa as nat / pow10(k as nat) == q);
                assert(self.mantissa as nat % pow10(k as nat) == rest);
                assert(q <= self.mantissa / 10) by (nonlinear_arith)
                    requires
                        q == self.mantissa / p,
                        p >= 10,
                ;
            }
            let rounded = if up {
                q + 1
            } else {
                q
            };
            fixed_to_text(self.negative, rounded, n)
        } else {
            let mut s = fixed_to_text(self.negative, self.mantissa, self.scale);
            if self.scale == 0 && n > 0 {
                proof {
                    reveal_strlit(".");
                    assert("."@ =~= seq!['.']);
                }
                s.append(".");
                let pad = zeros_text(n);
                s.append(pad.as_str());
                proof {
                    assert(s@ =~= self.text() + (seq!['.'] + zeros(n as nat)));
                }
            } else {
                let pad = zeros_text(n - self.scale);
                s.append(pad.as_str());
            }
            s
        }
    }
}

/// Ten to the `k` is at least one, grows with `k`, and fits 64 bits up to
/// `MAX_SCALE`.
pub proof fn lemma_pow10_bounds(k: nat)
    ensures
        pow10(k) >= 1,
        k >= 1 ==> pow10(k) >= 10,
        k <= 19 ==> pow10(k) <= 10_000_000_000_000_000_000,
    decreases 19 - k,
{
    if k == 0 {
    } else if k < 19 {
        lemma_pow10_bounds(k + 1);
    } else if k == 19 {
        reveal_with_fuel(pow10, 20);
    }
    if k >= 1 {
        lemma_pow10_positive((k - 1) as nat);
    }
    lemma_pow10_positive(k);
}

/// Ten to the `k` is at least one.
pub proof fn lemma_pow10_positive(k: nat)
    ensures
        pow10(k) >= 1,
    decreases k,
{
    if k > 0 {
        lemma_pow10_positive((k - 1) as nat);
    }
}

/// `value` without its sign.
pub fn magnitude(value: i64) -> (m: u64)
    ensures
        m == if value < 0 {
            -(value as int)
        } else {
            value as int
        },
{
    if value >= 0 {
        value as u64
    } else {
        let above: i64 = value + 1;
        let done: u64 = (-above) as u64;
        done + 1
    }
}

/// The 64 bits of `value` in two's complement, as an unsigned number.
pub fn bits_of(value: i64) -> (bits: u64)
    ensures
        bits == twos_complement(value as int),
{
    if value >= 0 {
        value as u64
    } else {
        u64::MAX - (magnitude(value) - 1)
    }
}

/// Ten to the `k`.
pub(crate) fn power_of_ten(k: u8) -> (p: u64)
    requires
        k <= MAX_SCALE,
    ensures
        p == pow10(k as nat),
{
    let mut p: u64 = 1;
    let mut i: u8 = 0;
    while i < k
        invariant
            i <= k <= MAX_SCALE,
            p == pow10(i as nat),
        decreases k - i,
    {
        proof {
            lemma_pow10_bounds((i + 1) as nat);
        }
        p = p * 10;
        i = i + 1;
    }
    p
}

/// The text of one digit.
pub(crate) fn digit_text(d: u64, upper: bool) -> (s: &'static str)
    requires
        d < 16,
    ensures
        s@ == seq![digit_in_case(d as nat, upper)],
{
    proof {
        reveal_strlit("0");
        reveal_strlit("1");
        reveal_strlit("2");
        reveal_strlit("3");
        reveal_strlit("4");
        reveal_strlit("5");
        reveal_strlit("6");
        reveal_strlit("7");
        reveal_strlit("8");
        reveal_strlit("9");
        reveal_strlit("a");
        reveal_strlit("b");
        reveal_strlit("c");
        reveal_strlit("d");
        reveal_strlit("e");
        reveal_strlit("f");
        reveal_strlit("A");
        reveal_strlit("B");
        reveal_strlit("C");
        reveal_strlit("D");
        reveal_strlit("E");
        reveal_strlit("F");
    }
    let s = if d == 0 {
        "0"
    } else if d == 1 {
        "1"
    } else if d == 2 {
        "2"
    } else if d == 3 {
        "3"
    } else if d == 4 {
        "4"
    } else if d == 5 {
        "5"
    } else if d == 6 {
        "6"
    } else if d == 7 {
        "7"
    } else if d == 8 {
        "8"
    } else if d == 9 {
        "9"
    } else if d == 10 {
        if upper {
            "A"
        } else {
            "a"
        }
    } else if d == 11 {
        if upper {
            "B"
        } else {
            "b"
        }
    } else if d == 12 {
        if upper {
            "C"
        } else {
            "c"
        }
    } else if d == 13 {
        if upper {
            "D"
        } else {
            "d"
        }
    } else if d == 14 {
        if upper {
            "E"
        } else {
            "e"
        }
    } else {
        if upper {
            "F"
        } else {
            "f"
        }
    };
    assert(s@ =~= seq![digit_in_case(d as nat, upper)]);
    s
}

/// The digits of `n` in base `radix`.
pub(crate) fn radix_to_text(n: u64, radix: u64, upper: bool) -> (s: String)
    requires
        2 <= radix <= 16,
    ensures
        s@ == radix_text(n as nat, radix as nat, upper),
    decreases n,
{
    if n < radix {
        String::from_str(digit_text(n, upper))
    } else {
        proof {
            lemma_quotient_is_less(n as nat, radix as nat);
        }
        let mut s = radix_to_text(n / radix, radix, upper);
        s.append(digit_text(n % radix, upper));
        proof {
            assert(s@ =~= radix_text((n / radix) as nat, radix as nat, upper).push(
                digit_in_case((n % radix) as nat, upper),
            ));
        }
        s
    }
}

/// `n` in decimal.
pub fn unsigned_to_text(n: u64) -> (s: String)
    ensures
        s@ == decimal_text(n as nat),
{
    radix_to_text(n, 10, false)
}

/// `v` in decimal, with its sign if it is negative.
pub fn signed_to_text(v: i64) -> (s: String)
    ensures
        s@ == signed_decimal_text(v as int),
{
    if v < 0 {
        proof {
            reveal_strlit("-");
            assert("-"@ =~= seq!['-']);
        }
        let mut s = String::from_str("-");
        let digits = radix_to_text(magnitude(v), 10, false);
        s.append(digits.as_str());
        s
    } else {
        radix_to_text(v as u64, 10, false)
    }
}

/// The lowest `width` decimal digits of `v`, with leading zeros.
pub fn padded_to_text(v: u64, width: u8) -> (s: String)
    ensures
        s@ == padded_decimal(v as nat, width as nat),
    decreases width,
{
    if width == 0 {
        String::new()
    } else {
        let mut s = padded_to_text(v / 10, width - 1);
        s.append(digit_text(v % 10, false));
        proof {
            assert(s@ =~= padded_decimal((v / 10) as nat, (width - 1) as nat).push(
                digit_char((v % 10) as nat),
            ));
        }
        s
    }
}

/// `count` zeros.
pub fn zeros_text(count: u8) -> (s: String)
    ensures
        s@ == zeros(count as nat),
{
    let mut s = String::new();
    let mut i: u8 = 0;
    proof {
        assert(s@ =~= zeros(0));
    }
    while i < count
        invariant
            i <= count,
            s@ == zeros(i as nat),
        decreases count - i,
    {
        proof {
            reveal_strlit("0");
            assert(zeros(i as nat) + "0"@ =~= zeros((i + 1) as nat));
        }
        s.append("0");
        i = i + 1;
    }
    s
}

/// The number `m / 10^scale` written out.
pub(crate) fn fixed_to_text(negative: bool, m: u64, scale: u8) -> (s: String)
    requires
        scale <= MAX_SCALE,
    ensures
        s@ == fixed_text(negative, m as nat, scale as nat),
{
    let p = power_of_ten(scale);
    proof {
        lemma_pow10_bounds(scale as nat);
        reveal_strlit("-");
        reveal_strlit(".");
        assert("-"@ =~= seq!['-']);
        assert("."@ =~= seq!['.']);
    }
    let mut s = if negative {
        String::from_str("-")
    } else {
        String::new()
    };
    assert(s@ =~= sign_text(negative));
    let whole = radix_to_text(m / p, 10, false);
    s.append(whole.as_str());
    if scale > 0 {
        s.append(".");
        let part = padded_to_text(m % p, scale);
        s.append(part.as_str());
        proof {
            assert(s@ =~= fixed_text(negative, m as nat, scale as nat));
        }
    } else {
        proof {
            assert(s@ =~= fixed_text(negative, m as nat, scale as nat));
        }
    }
    s
}

/// What std's `Debug` writes for a piece of text: the text in double quotes,
/// with the characters that need it escaped.
pub uninterp spec fn std_debug_text(s: Seq<char>) -> Seq<char>;

/// std's `Display` of an integer, `format!("{}", x)`: its decimal digits, and
/// a minus sign in front of a negative one.
#[verifier::external_body]
pub(crate) fn std_display_integer(x: i128) -> (r: String)
    ensures
        r@ == signed_decimal_text(x as int),
{
    format!("{}", x)
}

/// std's `Binary` of an unsigned integer, `format!("{:b}", x)`: its digits in
/// base two, without prefix or leading zeros.
#[verifier::external_body]
pub(crate) fn std_binary_unsigned(x: u64) -> (r: String)
    ensures
        r@ == radix_text(x as nat, 2, false),
{
    format!("{:b}", x)
}

/// std's `UpperHex` of an unsigned integer, `format!("{:X}", x)`: its digits
/// in base sixteen, letters in upper case, without prefix or leading zeros.
#[verifier::external_body]
pub(crate) fn std_upper_hex_unsigned(x: u64) -> (r: String)
    ensures
        r@ == radix_text(x as nat, 16, true),
{
    format!("{:X}", x)
}

/// std's `Debug` of a piece of text, `format!("{:?}", s)`. The contract only
/// gives the result its name.
#[verifier::external_body]
pub(crate) fn std_debug_str(s: &str) -> (r: String)
    ensures
        r@ == std_debug_text(s@),
{
    format!("{:?}", s)
}

/// std's `Display` of a piece of text with a precision, `format!("{:.*}", n, s)`:
/// for text the precision is a greatest width, so at most the first `n`
/// characters come out.
#[verifier::external_body]
pub(crate) fn std_precision_str(s: &str, n: u8) -> (r: String)
    ensures
        r@ == if n < s@.len() {
            s@.take(n as int)
        } else {
            s@
        },
{
    format!("{:.*}", usize::from(n), s)
}

/// std's `Display` of an integer with a precision, `format!("{:.*}", n, x)`:
/// an integer ignores the precision.
#[verifier::external_body]
pub(crate) fn std_precision_integer(x: i128, n: u8) -> (r: String)
    ensures
        r@ == signed_decimal_text(x as int),
{
    format!("{:.*}", usize::from(n), x)
}

} // verus!
