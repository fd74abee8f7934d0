use fmt2::number::{
    bits_of, magnitude, padded_to_text, signed_to_text, unsigned_to_text, zeros_text, Fixed,
    MAX_SCALE,
};
use fmt2::template::{Slot, Token};
use fmt2::value::{Capture, RenderMode, Value};

fn with_precision(negative: bool, mantissa: u64, scale: u8, n: u8) -> String {
    Fixed::new(negative, mantissa, scale).unwrap().to_text_with_precision(n)
}

#[test]
fn a_fraction_is_rounded_to_the_digits_asked_for() {
    assert_eq!(with_precision(false, 123456, 4, 2), "12.35");
    let v = 12.3456_f64;
    let mantissa = (v * 10000.0).round() as u64;
    assert_eq!(with_precision(false, mantissa, 4, 2), format!("{:.2}", v));
    let slot = Token::Slot(Slot {
        value: Value::Fixed(Fixed::new(false, 123456, 4).unwrap()),
        mode: RenderMode::Precision(2),
        capture: Capture::ByValue,
    });
    assert_eq!(fmt2::compile::format_text(vec![slot]).unwrap(), "12.35");
}

#[test]
fn a_tie_goes_to_the_even_digit() {
    assert_eq!(with_precision(false, 12345, 3, 2), "12.34");
    assert_eq!(with_precision(false, 12355, 3, 2), "12.36");
    assert_eq!(with_precision(false, 125, 1, 0), "12");
    assert_eq!(with_precision(false, 135, 1, 0), "14");
    assert_eq!(with_precision(false, 5, 1, 0), "0");
    assert_eq!(with_precision(false, 15, 1, 0), "2");
    assert_eq!(with_precision(false, 1251, 2, 1), "12.5");
    assert_eq!(with_precision(false, 1249, 2, 1), "12.5");
    assert_eq!(with_precision(false, 1250, 2, 1), "12.5");
    assert_eq!(with_precision(false, 12500, 3, 1), "12.5");
    assert_eq!(with_precision(false, 12450, 3, 1), "12.4");
    assert_eq!(with_precision(false, 12550, 3, 1), "12.6");
}

#[test]
fn rounding_carries_into_the_whole_part() {
    assert_eq!(with_precision(false, 999, 2, 1), "10.0");
    assert_eq!(with_precision(false, 9996, 3, 2), "10.00");
    assert_eq!(with_precision(false, 995, 3, 0), "1");
    assert_eq!(with_precision(true, 999, 2, 0), "-10");
}

#[test]
fn fewer_digits_than_asked_for_are_padded() {
    assert_eq!(with_precision(false, 5, 2, 2), "0.05");
    assert_eq!(with_precision(false, 5, 2, 4), "0.0500");
    assert_eq!(with_precision(false, 12, 0, 2), "12.00");
    assert_eq!(with_precision(false, 12, 0, 0), "12");
    assert_eq!(with_precision(true, 1, 3, 2), "-0.00");
    assert_eq!(with_precision(false, 0, 0, 3), "0.000");
    assert_eq!(with_precision(false, 7, 0, 255).len(), 2 + 255);
}

#[test]
fn extremes_of_scale_and_mantissa() {
    assert_eq!(
        with_precision(false, u64::MAX, MAX_SCALE, 19),
        "1.8446744073709551615"
    );
    assert_eq!(with_precision(false, u64::MAX, MAX_SCALE, 0), "2");
    assert_eq!(with_precision(false, u64::MAX, 0, 0), "18446744073709551615");
    assert_eq!(with_precision(false, 1, MAX_SCALE, 18), "0.000000000000000000");
    assert_eq!(with_precision(false, 5, MAX_SCALE, 18), "0.000000000000000000");
    assert_eq!(with_precision(false, 15, MAX_SCALE, 18), "0.000000000000000002");
    assert!(Fixed::new(false, 1, MAX_SCALE).is_some());
    assert!(Fixed::new(false, 1, MAX_SCALE + 1).is_none());
    assert!(Fixed::new(true, 0, 255).is_none());
}

#[test]
fn a_fraction_as_it_stands() {
    let f = Fixed::new(true, 1205, 2).unwrap();
    assert_eq!(f.to_text(), "-12.05");
    assert!(f.is_negative());
    assert_eq!(f.mantissa(), 1205);
    assert_eq!(f.scale(), 2);
    assert_eq!(Fixed::from_unsigned(7).to_text(), "7");
    assert_eq!(Fixed::from_signed(-7).to_text(), "-7");
    assert_eq!(Fixed::from_signed(i64::MIN).to_text(), "-9223372036854775808");
    assert_eq!(Fixed::new(false, 1, 3).unwrap().to_text(), "0.001");
    assert_eq!(Fixed::new(false, 1000, 3).unwrap().to_text(), "1.000");
}

fn in_mode(n: u64, mode: RenderMode) -> String {
    Value::Unsigned(n).render(&mode)
}

#[test]
fn digits_in_every_base() {
    assert_eq!(in_mode(0, RenderMode::Binary), "0");
    assert_eq!(in_mode(255, RenderMode::Binary), "11111111");
    assert_eq!(in_mode(255, RenderMode::Hex), "ff");
    assert_eq!(in_mode(255, RenderMode::PassthroughHex), "FF");
    assert_eq!(in_mode(0xabcdef, RenderMode::Hex), "abcdef");
    assert_eq!(in_mode(0xABCDEF, RenderMode::PassthroughHex), "ABCDEF");
    assert_eq!(unsigned_to_text(u64::MAX), u64::MAX.to_string());
    assert_eq!(unsigned_to_text(1000), "1000");
    assert_eq!(signed_to_text(-1000), "-1000");
    assert_eq!(signed_to_text(0), "0");
    for n in [0u64, 1, 9, 10, 99, 100, 12345, u64::MAX] {
        assert_eq!(unsigned_to_text(n), format!("{}", n));
        assert_eq!(in_mode(n, RenderMode::Binary), format!("{:b}", n));
        assert_eq!(in_mode(n, RenderMode::Hex), format!("{:x}", n));
        assert_eq!(in_mode(n, RenderMode::PassthroughHex), format!("{:X}", n));
        assert_eq!(in_mode(n, RenderMode::PassthroughBinary), format!("{:b}", n));
        assert_eq!(in_mode(n, RenderMode::PassthroughDisplay), format!("{}", n));
    }
}

#[test]
fn helpers_of_the_digits() {
    assert_eq!(magnitude(-5), 5);
    assert_eq!(magnitude(5), 5);
    assert_eq!(magnitude(i64::MIN), 1u64 << 63);
    assert_eq!(bits_of(-1), u64::MAX);
    assert_eq!(bits_of(i64::MIN), 1u64 << 63);
    assert_eq!(bits_of(3), 3);
    assert_eq!(padded_to_text(7, 3), "007");
    assert_eq!(padded_to_text(1234, 2), "34");
    assert_eq!(padded_to_text(5, 0), "");
    assert_eq!(zeros_text(0), "");
    assert_eq!(zeros_text(3), "000");
}
