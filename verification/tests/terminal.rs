use fmt2::compile::format_text;
use fmt2::template::{Directive, Token};
use fmt2::terminal::event::{
    is_back, is_continue, is_quit, read, Event, KeyCode, KeyEvent, KeyEventKind, KeyModifiers, ALT,
    CONTROL, NONE, SHIFT,
};
use fmt2::terminal::prompt::consts::{
    ERROR_LINE_PREFIX, INFO_HELP, MAIN_MENU_SELECT_HELP, SELECT_HELP, UNSIGNED_INT_HELP,
};
use fmt2::terminal::prompt::info::{info_decide, Info};
use fmt2::terminal::prompt::select::{
    check_choices_len, choice_row, select_decide, unwrap_choices_check, Choices, ChoicesError,
    Select, SelectMove, MAX_LEN,
};
use fmt2::terminal::prompt::unsigned_int::fmt_value;
use fmt2::terminal::prompt::utils::{
    fmt_prompt_chosen_choice, fmt_prompt_error, fmt_prompt_help, fmt_prompt_question,
    fmt_prompt_unchosen_choice,
};
use fmt2::terminal::prompt::{failed, Back, Decision, Outcome, PromptResult, Quit};
use fmt2::terminal::screen_area::ScreenArea;
use fmt2::write::{Flush, Write, WriteExt};
use std::ops::ControlFlow;

fn lit(s: &str) -> Token {
    Token::Literal(String::from(s))
}

fn key(code: KeyCode, bits: u8) -> (KeyCode, KeyModifiers) {
    (code, KeyModifiers { bits })
}

fn press(code: KeyCode, bits: u8, kind: KeyEventKind) -> Event {
    Event::Key(KeyEvent { code, modifiers: KeyModifiers { bits }, kind })
}

struct Broken;

impl Write for Broken {
    type Error = &'static str;

    const IS_LINE_BUFFERED: bool = false;

    fn write_str(&mut self, _s: &str) -> Result<(), Self::Error> {
        Err("broken")
    }
}

#[test]
fn screen_area_counts_the_lines_written() {
    let mut area = ScreenArea::new(String::new());
    assert_eq!(area.cursor_y, 0);
    area.write_str("abc").unwrap();
    assert_eq!(area.cursor_y, 0);
    area.write_str("a\nb\n").unwrap();
    assert_eq!(area.cursor_y, 2);
    area.writeln("x").unwrap();
    assert_eq!(area.cursor_y, 3);
    assert_eq!(area.writer, "abca\nb\nx\n");
    area.cursor_y = u16::MAX - 1;
    area.write_str("\n\n\n").unwrap();
    assert_eq!(area.cursor_y, u16::MAX);
    assert_eq!(area.flush(), Ok(()));
    area.flush_hint();
    assert_eq!(area.cursor_y, u16::MAX);
}

#[test]
fn screen_area_counts_even_when_the_write_fails() {
    let mut area = ScreenArea::new(Broken);
    assert_eq!(area.write_str("a\nb\n"), Err("broken"));
    assert_eq!(area.cursor_y, 2);
    assert_eq!(area.move_to_y(7), Err("broken"));
    assert_eq!(area.cursor_y, 7);
    assert_eq!(area.move_to_y(7), Ok(()));
    assert_eq!(area.clear_from(3), Err("broken"));
    assert_eq!(area.cursor_y, 3);
}

#[test]
fn screen_area_moves_the_cursor() {
    let mut area = ScreenArea::new(String::new());
    area.move_to_y(5).unwrap();
    assert_eq!(area.cursor_y, 5);
    assert_eq!(area.writer, "\x1B[5B");
    area.move_to_y(2).unwrap();
    assert_eq!(area.cursor_y, 2);
    assert_eq!(area.writer, "\x1B[5B\x1B[3A");
    area.move_to_y(2).unwrap();
    assert_eq!(area.writer, "\x1B[5B\x1B[3A");
    area.writer.clear();
    area.move_up(5).unwrap();
    assert_eq!(area.cursor_y, 0);
    assert_eq!(area.writer, "\x1B[5A");
    area.move_down(4).unwrap();
    assert_eq!(area.cursor_y, 4);
    area.move_down(u16::MAX).unwrap();
    assert_eq!(area.cursor_y, u16::MAX);
    assert_eq!(area.writer, "\x1B[5A\x1B[4B\x1B[65535B");
    area.writer.clear();
    area.move_up(0).unwrap();
    assert_eq!(area.writer, "\x1B[0A");
}

#[test]
fn screen_area_clears_from_a_row_down() {
    let mut area = ScreenArea::new(String::new());
    area.cursor_y = 4;
    area.clear_from(1).unwrap();
    assert_eq!(area.cursor_y, 1);
    assert_eq!(area.writer, "\x1B[3A\x1B[1G\x1B[J");
    area.writer.clear();
    area.clear().unwrap();
    assert_eq!(area.cursor_y, 0);
    assert_eq!(area.writer, "\x1B[1A\x1B[1G\x1B[J");
    area.writer.clear();
    area.clear().unwrap();
    assert_eq!(area.writer, "\x1B[1G\x1B[J");
}

#[test]
fn screen_area_writes_only_the_first_line() {
    let mut area = ScreenArea::new(String::new());
    area.write_str_first_line("abc\ndef").unwrap();
    area.write_str_first_line("\nxyz").unwrap();
    area.write_str_first_line("ghi").unwrap();
    assert_eq!(area.writer, "abcghi");
    assert_eq!(area.cursor_y, 0);
}

#[test]
fn only_a_key_going_down_is_read() {
    assert_eq!(
        read(&press(KeyCode::Char('a'), SHIFT, KeyEventKind::Press)),
        Some(key(KeyCode::Char('a'), SHIFT))
    );
    assert_eq!(read(&press(KeyCode::Enter, NONE, KeyEventKind::Release)), None);
    assert_eq!(read(&press(KeyCode::Enter, NONE, KeyEventKind::Repeat)), None);
    assert_eq!(read(&Event::Other), None);
}

#[test]
fn keys_that_continue_go_back_and_quit() {
    assert!(is_continue(&key(KeyCode::Enter, NONE)));
    assert!(is_continue(&key(KeyCode::Enter, CONTROL | ALT)));
    assert!(is_continue(&key(KeyCode::Char('\n'), SHIFT)));
    assert!(!is_continue(&key(KeyCode::Char('n'), NONE)));
    assert!(is_back(&key(KeyCode::Char('d'), CONTROL)));
    assert!(!is_back(&key(KeyCode::Char('d'), NONE)));
    assert!(!is_back(&key(KeyCode::Char('d'), CONTROL | SHIFT)));
    assert!(is_back(&key(KeyCode::Esc, NONE)));
    assert!(!is_back(&key(KeyCode::Esc, SHIFT)));
    assert!(is_quit(&key(KeyCode::Char('c'), CONTROL)));
    assert!(!is_quit(&key(KeyCode::Char('c'), NONE)));
    assert!(is_quit(&key(KeyCode::Esc, SHIFT)));
    assert!(is_quit(&key(KeyCode::Esc, NONE)));
    assert!(!is_quit(&key(KeyCode::Other, CONTROL)));
}

#[test]
fn the_number_of_choices_is_checked() {
    assert_eq!(check_choices_len(0), Err(ChoicesError::IsEmpty));
    assert_eq!(check_choices_len(1), Ok(()));
    assert_eq!(check_choices_len(MAX_LEN), Ok(()));
    assert_eq!(check_choices_len(MAX_LEN + 1), Err(ChoicesError::TooLong));
    assert_eq!(check_choices_len(usize::MAX), Err(ChoicesError::TooLong));
    assert_eq!(MAX_LEN, (u16::MAX / 2) as usize);
    unwrap_choices_check(check_choices_len(3));
    let none: [&str; 0] = [];
    assert_eq!(Choices::try_new(&none).map(|c| c.len()), Err(ChoicesError::IsEmpty));
    let many = vec![0u8; MAX_LEN + 1];
    assert_eq!(Choices::try_new(&many).map(|c| c.len()), Err(ChoicesError::TooLong));
    assert_eq!(Choices::try_new(&many[..MAX_LEN]).map(|c| c.len()), Ok(MAX_LEN as u16));
}

#[test]
fn choices_and_select_keep_what_they_are_given() {
    let items = ["a", "b", "c"];
    let choices = Choices::new(&items);
    assert_eq!(choices.len(), 3);
    assert_eq!(choices.get(), &items);
    assert_eq!(*choices.first(), "a");
    assert_eq!(choices.check(), Ok(()));
    let select: Select<&str, false> = Select::new("which?", choices);
    assert_eq!(select.question(), "which?");
    assert_eq!(select.choices().get(), &items);
    assert_eq!(select.check(), Ok(()));
    assert!(!select.is_main_menu());
    assert_eq!(select.help(), SELECT_HELP);
    let main: Select<&str, true> = Select::try_new("menu", &items).unwrap();
    assert!(main.is_main_menu());
    assert_eq!(main.help(), MAIN_MENU_SELECT_HELP);
    let none: [&str; 0] = [];
    assert_eq!(
        Select::<&str, false>::try_new("q", &none).map(|s| s.choices().len()),
        Err(ChoicesError::IsEmpty)
    );
}

#[test]
fn select_moves_round_the_choices() {
    let moved = |index: u16, code: KeyCode| match select_decide(index, 3, &key(code, NONE)) {
        Decision::Redraw(SelectMove { from, to }) => {
            assert_eq!(from, index);
            Some(to)
        }
        Decision::Ignore => None,
        Decision::Done(_) => panic!("the prompt ended"),
    };
    assert_eq!(moved(0, KeyCode::Down), Some(1));
    assert_eq!(moved(1, KeyCode::Down), Some(2));
    assert_eq!(moved(2, KeyCode::Down), Some(0));
    assert_eq!(moved(0, KeyCode::Up), Some(2));
    assert_eq!(moved(2, KeyCode::Up), Some(1));
    assert_eq!(moved(1, KeyCode::Home), Some(0));
    assert_eq!(moved(0, KeyCode::Home), None);
    assert_eq!(moved(1, KeyCode::End), Some(2));
    assert_eq!(moved(2, KeyCode::End), None);
    assert_eq!(moved(1, KeyCode::Left), None);
    assert_eq!(moved(1, KeyCode::Char('x')), None);
    assert!(matches!(select_decide(0, 1, &key(KeyCode::Down, NONE)), Decision::Ignore));
    assert!(matches!(select_decide(0, 1, &key(KeyCode::Up, NONE)), Decision::Ignore));
}

#[test]
fn select_ends_on_enter_back_and_quit() {
    assert!(matches!(
        select_decide(2, 3, &key(KeyCode::Enter, NONE)),
        Decision::Done(Outcome::Answer(2))
    ));
    assert!(matches!(
        select_decide(2, 3, &key(KeyCode::Esc, NONE)),
        Decision::Done(Outcome::Back(Back))
    ));
    assert!(matches!(
        select_decide(2, 3, &key(KeyCode::Esc, ALT)),
        Decision::Done(Outcome::Quit(Quit))
    ));
    assert!(matches!(
        select_decide(2, 3, &key(KeyCode::Char('c'), CONTROL)),
        Decision::Done(Outcome::Quit(Quit))
    ));
    assert_eq!(choice_row(3, 4), 7);
    assert_eq!(choice_row(u16::MAX - 1, 4), u16::MAX);
}

#[test]
fn info_ends_on_any_key() {
    assert!(matches!(info_decide(&key(KeyCode::Char('x'), NONE)), Outcome::Answer(())));
    assert!(matches!(info_decide(&key(KeyCode::Enter, NONE)), Outcome::Answer(())));
    assert!(matches!(info_decide(&key(KeyCode::Esc, NONE)), Outcome::Back(Back)));
    assert!(matches!(info_decide(&key(KeyCode::Esc, SHIFT)), Outcome::Quit(Quit)));
    assert!(matches!(info_decide(&key(KeyCode::Char('d'), CONTROL)), Outcome::Back(Back)));
    let info = Info::new_with("news", Some("more"));
    assert_eq!(info.info(), "news");
    assert_eq!(info.additional(), Some("more"));
    let plain = Info::new("news");
    assert_eq!(plain.info(), "news");
    assert_eq!(plain.additional(), None);
}

#[test]
fn outcomes_become_prompt_results() {
    let answered: PromptResult<u8, ()> = Outcome::Answer(3).into_result();
    assert_eq!(answered, ControlFlow::Continue(ControlFlow::Continue(3)));
    let back: PromptResult<u8, ()> = Outcome::Back(Back).into_result();
    assert_eq!(back, ControlFlow::Continue(ControlFlow::Break(Back)));
    let quit: PromptResult<u8, ()> = Outcome::Quit(Quit).into_result();
    assert_eq!(quit, ControlFlow::Break(Ok(Quit)));
    let broken: PromptResult<u8, &str> = failed("io");
    assert_eq!(broken, ControlFlow::Break(Err("io")));
}

#[test]
fn prompt_lines_render_in_their_colours() {
    let question = fmt_prompt_question(
        vec![lit("name")],
        vec![Token::Directive(Directive::CursorMoveToX(fmt2::template::Coord::Start))],
        vec![Token::Directive(Directive::LineBreak)],
    );
    assert_eq!(format_text(question).unwrap(), "\x1B[1G\x1B[38;5;10m? name\x1B[39m\n");
    let error = fmt_prompt_error(vec![lit("bad")], vec![], vec![]);
    assert_eq!(format_text(error).unwrap(), format!("\x1B[38;5;9m{}bad\x1B[39m", ERROR_LINE_PREFIX));
    let help = fmt_prompt_help(vec![lit(INFO_HELP)], vec![], vec![]);
    assert_eq!(format_text(help).unwrap(), format!("\x1B[38;5;14m[{}]\x1B[39m", INFO_HELP));
    let chosen = fmt_prompt_chosen_choice("first\nsecond", vec![], vec![lit("\n")]);
    assert_eq!(format_text(chosen).unwrap(), "\x1B[38;5;14m> first\x1B[39m\n");
    let unchosen = fmt_prompt_unchosen_choice("first\nsecond", vec![lit("|")], vec![]);
    assert_eq!(format_text(unchosen).unwrap(), "|  first");
    assert_eq!(UNSIGNED_INT_HELP, "0-9, ↵ continue, Esc back, ⇑Esc quit");
}

#[test]
fn a_rejected_part_of_a_prompt_line_rejects_the_line() {
    let bad = || Token::Directive(Directive::Unrecognized(String::from("?!")));
    assert!(format_text(fmt_prompt_question(vec![bad()], vec![], vec![])).is_err());
    assert!(format_text(fmt_prompt_help(vec![], vec![bad()], vec![])).is_err());
    assert!(format_text(fmt_prompt_error(vec![], vec![], vec![bad()])).is_err());
    assert!(format_text(fmt_prompt_chosen_choice("x", vec![], vec![bad()])).is_err());
    assert!(format_text(fmt_prompt_unchosen_choice("x", vec![bad()], vec![])).is_err());
    assert!(format_text(fmt_value("1", 1, vec![], vec![bad()])).is_err());
}

#[test]
fn the_value_line_puts_the_cursor_on_its_column() {
    let line = fmt_value("123\nrest", 3, vec![], vec![]);
    assert_eq!(format_text(line).unwrap(), "\x1B[?25l\x1B[1G\x1B[2K123\x1B[3G\x1B[?25h");
    let line = fmt_value("", u16::MAX, vec![lit("<")], vec![lit(">")]);
    assert_eq!(format_text(line).unwrap(), "<\x1B[?25l\x1B[1G\x1B[2K\x1B[65535G\x1B[?25h>");
}

#[test]
fn a_prompt_line_goes_through_the_screen_area() {
    let mut area = ScreenArea::new(String::new());
    let line = fmt_prompt_question(vec![lit("q")], vec![], vec![Token::Directive(Directive::LineBreak)]);
    fmt2::compile::format_to(&mut area, line).unwrap().unwrap();
    assert_eq!(area.cursor_y, 1);
    assert_eq!(area.writer, "\x1B[38;5;10m? q\x1B[39m\n");
}
