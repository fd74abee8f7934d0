use fmt2::terminal::event::{KeyCode, KeyModifiers, CONTROL, NONE, SHIFT};
use fmt2::terminal::prompt::unsigned_int::{
    char_try_into_ascii_char, digits_fmt_str, digits_to_number, validate, Accept, Digit, Validator,
    DigitBuffer, UnsignedInt, UnsignedIntAction,
};

fn d(char: char) -> Digit {
    Digit::try_from(char).unwrap()
}

fn key(code: KeyCode) -> (KeyCode, KeyModifiers) {
    (code, KeyModifiers { bits: NONE })
}

#[test]
fn unsigned_int_test() {
    {
        assert_eq!(digits_to_number::<u8>(&[]), Some(0));
        assert_eq!(digits_to_number::<u8>(&[d('0')]), Some(0));
        assert_eq!(digits_to_number::<u8>(&[d('1')]), Some(1));
        assert_eq!(digits_to_number::<u8>(&[d('1'), d('2')]), Some(12));
        assert_eq!(digits_to_number::<u8>(&[d('1'), d('2'), d('3')]), Some(123));
    }
    assert_eq!(Digit::try_from('0'), Ok(Digit::Digit0));
    assert_eq!(Digit::try_from('1'), Ok(Digit::Digit1));
    assert_eq!(Digit::try_from('2'), Ok(Digit::Digit2));
    assert_eq!(Digit::try_from('3'), Ok(Digit::Digit3));
    assert_eq!(Digit::try_from('4'), Ok(Digit::Digit4));
    assert_eq!(Digit::try_from('5'), Ok(Digit::Digit5));
    assert_eq!(Digit::try_from('6'), Ok(Digit::Digit6));
    assert_eq!(Digit::try_from('7'), Ok(Digit::Digit7));
    assert_eq!(Digit::try_from('8'), Ok(Digit::Digit8));
    assert_eq!(Digit::try_from('9'), Ok(Digit::Digit9));
    assert_eq!(Digit::try_from('a'), Err(()));

    assert_eq!(Digit::Digit0.as_u8(), 0);
    assert_eq!(Digit::Digit1.as_u8(), 1);
    assert_eq!(Digit::Digit2.as_u8(), 2);
    assert_eq!(Digit::Digit3.as_u8(), 3);
    assert_eq!(Digit::Digit4.as_u8(), 4);
    assert_eq!(Digit::Digit5.as_u8(), 5);
    assert_eq!(Digit::Digit6.as_u8(), 6);
    assert_eq!(Digit::Digit7.as_u8(), 7);
    assert_eq!(Digit::Digit8.as_u8(), 8);
    assert_eq!(Digit::Digit9.as_u8(), 9);
}

#[test]
fn digits_too_large_for_the_kind_give_none() {
    assert_eq!(digits_to_number::<u8>(&[d('2'), d('5'), d('5')]), Some(255));
    assert_eq!(digits_to_number::<u8>(&[d('2'), d('5'), d('6')]), None);
    assert_eq!(digits_to_number::<u16>(&[d('6'), d('5'), d('5'), d('3'), d('5')]), Some(65535));
    assert_eq!(digits_to_number::<u16>(&[d('6'), d('5'), d('5'), d('3'), d('6')]), None);
    let max: Vec<Digit> = "18446744073709551615".chars().map(d).collect();
    assert_eq!(digits_to_number::<u64>(&max), Some(u64::MAX));
    let over: Vec<Digit> = "18446744073709551616".chars().map(d).collect();
    assert_eq!(digits_to_number::<u64>(&over), None);
    let padded: Vec<Digit> = "000000000000000000000000007".chars().map(d).collect();
    assert_eq!(digits_to_number::<u8>(&padded), Some(7));
}

#[test]
fn digits_are_seen_as_text() {
    assert_eq!(digits_fmt_str(&[]), "");
    assert_eq!(digits_fmt_str(&[d('4'), d('0'), d('9')]), "409");
    assert_eq!(Digit::Digit7.as_str(), "7");
    assert_eq!(Digit::Digit7.as_parent().to_u8(), b'7');
}

#[test]
fn only_ascii_characters_become_ascii() {
    assert_eq!(char_try_into_ascii_char('a').map(|c| c.to_u8()), Some(b'a'));
    assert_eq!(char_try_into_ascii_char('\u{7f}').map(|c| c.to_u8()), Some(0x7f));
    assert!(char_try_into_ascii_char('\u{80}').is_none());
    assert!(char_try_into_ascii_char('é').is_none());
    assert_eq!(Digit::try_from('٣'), Err(()));
}

#[test]
fn unsigned_int_keeps_question_and_validator() {
    let p = UnsignedInt::new_with("how many?", 7u8);
    assert_eq!(p.question(), "how many?");
    assert_eq!(*p.validator(), 7u8);
    let q = UnsignedInt::new("again?");
    assert_eq!(q.question(), "again?");
    assert_eq!(q.validator().validate(3u8), Ok(3u8));
    assert_eq!(Accept.validate(9u32), Ok(9u32));
}

#[test]
fn validate_reads_digits_and_asks_the_validator() {
    let even = |n: u8| if n % 2 == 0 { Ok(n) } else { Err("odd") };
    assert_eq!(validate(&even, &[d('1'), d('2')]), Ok(12));
    assert_eq!(validate(&even, &[d('1'), d('3')]), Err("odd"));
    assert_eq!(validate(&even, &[d('2'), d('5'), d('6')]), Err("number too large"));
    assert_eq!(validate(&even, &[]), Ok(0));
}

#[test]
fn the_validator_of_a_new_question_lets_every_number_pass() {
    let q = UnsignedInt::new("how many?");
    assert_eq!(validate::<u8, _>(q.validator(), &[d('4'), d('2')]), Ok(42u8));
    assert_eq!(validate::<u8, _>(q.validator(), &[d('2'), d('5'), d('5')]), Ok(255u8));
    assert_eq!(validate::<u8, _>(q.validator(), &[d('2'), d('5'), d('6')]), Err("number too large"));
    assert_eq!(validate::<u16, _>(q.validator(), &[d('2'), d('5'), d('6')]), Ok(256u16));
    assert_eq!(validate::<u64, _>(&Accept, &[]), Ok(0u64));
    assert_eq!(Validator::<u32>::check(&Accept, 7), Ok(7));
    let halve = |n: u16| if n % 2 == 0 { Ok(u32::from(n) / 2) } else { Err("odd") };
    assert_eq!(halve.check(10), Ok(5u32));
    assert_eq!(validate(&halve, &[d('9')]), Err("odd"));
}

#[test]
fn digit_buffer_inserts_at_the_cursor() {
    let mut b = DigitBuffer::new();
    assert_eq!(b.cursor_x(), 0);
    assert_eq!(b.cursor_column(), 1);
    assert_eq!(b.step(&key(KeyCode::Char('1'))), UnsignedIntAction::RedrawValue);
    assert_eq!(b.step(&key(KeyCode::Char('3'))), UnsignedIntAction::RedrawValue);
    assert_eq!(b.step(&key(KeyCode::Left)), UnsignedIntAction::MoveCursor);
    assert_eq!(b.step(&key(KeyCode::Char('2'))), UnsignedIntAction::RedrawValue);
    assert_eq!(b.digits(), &vec![d('1'), d('2'), d('3')]);
    assert_eq!(b.cursor_x(), 2);
    assert_eq!(b.cursor_column(), 3);
}

#[test]
fn digit_buffer_ignores_what_is_no_digit() {
    let mut b = DigitBuffer::new();
    assert_eq!(b.step(&key(KeyCode::Char('x'))), UnsignedIntAction::Ignore);
    assert_eq!(b.step(&key(KeyCode::Left)), UnsignedIntAction::Ignore);
    assert_eq!(b.step(&key(KeyCode::Right)), UnsignedIntAction::Ignore);
    assert_eq!(b.step(&key(KeyCode::Delete)), UnsignedIntAction::Ignore);
    assert_eq!(b.step(&key(KeyCode::Backspace)), UnsignedIntAction::Ignore);
    assert_eq!(b.step(&key(KeyCode::Home)), UnsignedIntAction::Ignore);
    assert!(b.digits().is_empty());
    assert_eq!(b.cursor_x(), 0);
}

#[test]
fn digit_buffer_deletes_before_and_under_the_cursor() {
    let mut b = DigitBuffer::new();
    for c in ['1', '2', '3', '4'] {
        b.step(&key(KeyCode::Char(c)));
    }
    assert_eq!(b.step(&key(KeyCode::Backspace)), UnsignedIntAction::RedrawValue);
    assert_eq!(b.digits(), &vec![d('1'), d('2'), d('3')]);
    assert_eq!(b.cursor_x(), 3);
    assert_eq!(b.step(&key(KeyCode::Delete)), UnsignedIntAction::Ignore);
    b.step(&key(KeyCode::Left));
    b.step(&key(KeyCode::Left));
    assert_eq!(b.step(&key(KeyCode::Delete)), UnsignedIntAction::RedrawValue);
    assert_eq!(b.digits(), &vec![d('1'), d('3')]);
    assert_eq!(b.cursor_x(), 1);
    assert_eq!(b.step(&key(KeyCode::Right)), UnsignedIntAction::MoveCursor);
    assert_eq!(b.cursor_x(), 2);
    assert_eq!(b.step(&key(KeyCode::Right)), UnsignedIntAction::Ignore);
}

#[test]
fn digit_buffer_ends_on_enter_back_and_quit() {
    let mut b = DigitBuffer::new();
    b.step(&key(KeyCode::Char('5')));
    assert_eq!(b.step(&key(KeyCode::Enter)), UnsignedIntAction::Submit);
    assert_eq!(b.step(&key(KeyCode::Char('\n'))), UnsignedIntAction::Submit);
    assert_eq!(b.step(&key(KeyCode::Esc)), UnsignedIntAction::Back);
    assert_eq!(
        b.step(&(KeyCode::Esc, KeyModifiers { bits: SHIFT })),
        UnsignedIntAction::Quit
    );
    assert_eq!(
        b.step(&(KeyCode::Char('d'), KeyModifiers { bits: CONTROL })),
        UnsignedIntAction::Back
    );
    assert_eq!(
        b.step(&(KeyCode::Char('c'), KeyModifiers { bits: CONTROL })),
        UnsignedIntAction::Quit
    );
    assert_eq!(b.digits(), &vec![d('5')]);
}
