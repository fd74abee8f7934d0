use fmt2::ansi::{ClearMode, Color, Direction, Layer, Style};
use fmt2::compile::{
    check_capabilities, coalesce, compile, format_text, format_to, select_shape, Shape,
};
use fmt2::template::{
    expand, Coord, Count, Directive, ItemToken, Iterate, Part, Slot, TemplateError, Token,
};
use fmt2::value::{Capture, RenderMode, Value};
use fmt2::write::Write;
use fmt2::write_to::WriteTo;

fn lit(s: &str) -> Token {
    Token::Literal(String::from(s))
}

fn slot(value: Value, mode: RenderMode) -> Token {
    Token::Slot(Slot { value, mode, capture: Capture::ByReference })
}

fn by_value(value: Value, mode: RenderMode) -> Token {
    Token::Slot(Slot { value, mode, capture: Capture::ByValue })
}

fn text(s: &str) -> Value {
    Value::Text(String::from(s))
}

fn directive(d: Directive) -> Token {
    Token::Directive(d)
}

fn iterate(source: &[&str], separator: Option<&str>, body: Vec<ItemToken>) -> Token {
    Token::Iterate(Iterate {
        source: source.iter().map(|s| text(s)).collect(),
        separator: separator.map(String::from),
        body,
    })
}

fn literals(parts: &[Part]) -> Vec<Option<String>> {
    parts
        .iter()
        .map(|p| match p {
            Part::Literal(s) => Some(s.clone()),
            _ => None,
        })
        .collect()
}

/// A sink that takes whole writes until it has taken `limit` of them, and
/// fails every write from then on.
struct Failing {
    limit: usize,
    calls: usize,
    taken: Vec<String>,
    flushes: usize,
}

impl Failing {
    fn new(limit: usize) -> Self {
        Failing { limit, calls: 0, taken: Vec::new(), flushes: 0 }
    }
}

impl Write for Failing {
    type Error = usize;

    const IS_LINE_BUFFERED: bool = false;

    fn write_str(&mut self, s: &str) -> Result<(), usize> {
        self.calls += 1;
        if self.calls > self.limit {
            Err(self.calls)
        } else {
            self.taken.push(String::from(s));
            Ok(())
        }
    }

    fn flush_hint(&mut self) {
        self.flushes += 1;
    }
}

/// A sink that says it is line buffered and counts its flushes.
struct LineBuffered {
    text: String,
    flushes: usize,
}

impl Write for LineBuffered {
    type Error = ();

    const IS_LINE_BUFFERED: bool = true;

    fn write_str(&mut self, s: &str) -> Result<(), ()> {
        self.text.push_str(s);
        Ok(())
    }

    fn flush_hint(&mut self) {
        self.flushes += 1;
    }
}

#[test]
fn literal_only_template_renders_concatenation() {
    let r = compile(vec![lit("abc"), lit("def")]).unwrap();
    assert_eq!(r.shape(), Shape::AllLiteral);
    assert_eq!(r.to_string(), "abcdef");
    assert_eq!(format_text(vec![lit("a"), lit(""), lit("b"), lit("c")]).unwrap(), "abc");
}

#[test]
fn empty_template_is_empty() {
    let r = compile(vec![]).unwrap();
    assert_eq!(r.shape(), Shape::Empty);
    assert_eq!(r.to_string(), "");
    assert_eq!(r.size_hint(), 0);
    assert!(!r.ends_in_terminator());
    let r = compile(vec![lit(""), lit("")]).unwrap();
    assert_eq!(r.shape(), Shape::Empty);
    let mut sink = Failing::new(0);
    assert_eq!(r.write_to(&mut sink), Ok(()));
    assert_eq!(sink.calls, 0);
}

#[test]
fn single_plain_slot_passes_through() {
    let r = compile(vec![slot(Value::Unsigned(5), RenderMode::Plain)]).unwrap();
    assert_eq!(r.shape(), Shape::SinglePassthrough);
    assert_eq!(r.to_string(), "5");
    assert_eq!(r.to_string(), Value::Unsigned(5).render(&RenderMode::Plain));
    let mut sink = Failing::new(9);
    r.write_to(&mut sink).unwrap();
    assert_eq!(sink.taken, vec!["5"]);
}

#[test]
fn single_slot_by_value_or_in_another_mode_is_an_aggregate() {
    let r = compile(vec![by_value(Value::Unsigned(5), RenderMode::Plain)]).unwrap();
    assert_eq!(r.shape(), Shape::Aggregate);
    assert_eq!(r.to_string(), "5");
    let r = compile(vec![slot(Value::Unsigned(5), RenderMode::Hex)]).unwrap();
    assert_eq!(r.shape(), Shape::Aggregate);
    let r = compile(vec![lit(""), slot(text("x"), RenderMode::Plain), lit("")]).unwrap();
    assert_eq!(r.shape(), Shape::SinglePassthrough);
    let r = compile(vec![lit("a"), slot(text("x"), RenderMode::Plain)]).unwrap();
    assert_eq!(r.shape(), Shape::Aggregate);
}

#[test]
fn aggregate_renders_in_source_order() {
    let r = compile(vec![
        lit("abc"),
        slot(Value::Unsigned(5), RenderMode::Plain),
        lit("def"),
        slot(Value::Bool(true), RenderMode::Plain),
    ])
    .unwrap();
    assert_eq!(r.shape(), Shape::Aggregate);
    assert_eq!(r.to_string(), "abc5deftrue");
    let mut sink = Failing::new(9);
    r.write_to(&mut sink).unwrap();
    assert_eq!(sink.taken, vec!["abc", "5", "def", "true"]);
}

#[test]
fn splitting_a_literal_changes_nothing() {
    let whole = vec![lit("x"), slot(Value::Signed(-3), RenderMode::Plain), lit("hello"), lit("!")];
    let split = vec![
        lit("x"),
        slot(Value::Signed(-3), RenderMode::Plain),
        lit("he"),
        lit("llo"),
        lit("!"),
    ];
    let a = compile(whole).unwrap();
    let b = compile(split).unwrap();
    assert_eq!(a.to_string(), "x-3hello!");
    assert_eq!(a.to_string(), b.to_string());
    assert_eq!(a.shape(), b.shape());
    assert_eq!(a.size_hint(), b.size_hint());
    let mut first = Failing::new(9);
    let mut second = Failing::new(9);
    a.write_to(&mut first).unwrap();
    b.write_to(&mut second).unwrap();
    assert_eq!(first.taken, second.taken);
    assert_eq!(first.taken, vec!["x", "-3", "hello!"]);
}

#[test]
fn coalescing_merges_runs_and_drops_empty_literals() {
    let parts = expand(vec![
        lit(""),
        lit("a"),
        lit(""),
        lit("b"),
        slot(text("s"), RenderMode::Plain),
        lit(""),
        iterate(&["x"], None, vec![ItemToken::Item(RenderMode::Plain)]),
        lit("c"),
        lit("d"),
    ])
    .unwrap();
    assert_eq!(parts.len(), 9);
    let merged = coalesce(parts);
    assert_eq!(
        literals(&merged),
        vec![Some(String::from("ab")), None, None, Some(String::from("cd"))]
    );
    let again = coalesce(merged);
    assert_eq!(
        literals(&again),
        vec![Some(String::from("ab")), None, None, Some(String::from("cd"))]
    );
    assert_eq!(select_shape(&again), Shape::Aggregate);
    assert!(check_capabilities(&again).is_ok());
}

#[test]
fn modes_are_dispatched() {
    let render = |v: Value, m: RenderMode| format_text(vec![slot(v, m)]).unwrap();
    assert_eq!(render(Value::Unsigned(255), RenderMode::Plain), "255");
    assert_eq!(render(Value::Unsigned(255), RenderMode::Debug), "255");
    assert_eq!(render(Value::Unsigned(255), RenderMode::Binary), "11111111");
    assert_eq!(render(Value::Unsigned(255), RenderMode::Hex), "ff");
    assert_eq!(render(Value::Unsigned(255), RenderMode::Precision(2)), "255.00");
    assert_eq!(render(Value::Unsigned(255), RenderMode::PassthroughDisplay), "255");
    assert_eq!(render(Value::Unsigned(255), RenderMode::PassthroughDebug), "255");
    assert_eq!(render(Value::Unsigned(255), RenderMode::PassthroughBinary), "11111111");
    assert_eq!(render(Value::Unsigned(255), RenderMode::PassthroughHex), "FF");
    assert_eq!(render(Value::Unsigned(255), RenderMode::PassthroughPrecision(2)), "255");
    assert_eq!(render(Value::Unsigned(0), RenderMode::Binary), "0");
    assert_eq!(render(Value::Unsigned(u64::MAX), RenderMode::Hex), "ffffffffffffffff");
    assert_eq!(render(Value::Unsigned(u64::MAX), RenderMode::Plain), "18446744073709551615");
}

#[test]
fn signed_numbers_keep_their_sign_or_their_bits() {
    let render = |v: i64, m: RenderMode| format_text(vec![slot(Value::Signed(v), m)]).unwrap();
    assert_eq!(render(-42, RenderMode::Plain), "-42");
    assert_eq!(render(42, RenderMode::Plain), "42");
    assert_eq!(render(i64::MIN, RenderMode::Plain), "-9223372036854775808");
    assert_eq!(render(i64::MAX, RenderMode::Plain), "9223372036854775807");
    assert_eq!(render(-42, RenderMode::PassthroughDisplay), "-42");
    assert_eq!(render(-1, RenderMode::Hex), "ffffffffffffffff");
    assert_eq!(render(-1, RenderMode::PassthroughHex), "FFFFFFFFFFFFFFFF");
    assert_eq!(render(-1, RenderMode::PassthroughHex), format!("{:X}", -1i64));
    assert_eq!(render(-2, RenderMode::Binary), format!("{:b}", -2i64));
    assert_eq!(render(-2, RenderMode::PassthroughBinary), format!("{:b}", -2i64));
    assert_eq!(render(i64::MIN, RenderMode::Hex), "8000000000000000");
    assert_eq!(render(5, RenderMode::Binary), "101");
    assert_eq!(render(-7, RenderMode::Precision(1)), "-7.0");
    assert_eq!(render(-7, RenderMode::PassthroughPrecision(3)), "-7");
}

#[test]
fn text_and_booleans_in_their_modes() {
    let render = |v: Value, m: RenderMode| format_text(vec![slot(v, m)]).unwrap();
    assert_eq!(render(text("héllo"), RenderMode::Plain), "héllo");
    assert_eq!(render(text("héllo"), RenderMode::Debug), "héllo");
    assert_eq!(render(text("héllo"), RenderMode::PassthroughDisplay), "héllo");
    assert_eq!(render(text("a\"b\n"), RenderMode::PassthroughDebug), "\"a\\\"b\\n\"");
    assert_eq!(render(text("héllo"), RenderMode::PassthroughPrecision(2)), "hé");
    assert_eq!(render(text("hi"), RenderMode::PassthroughPrecision(2)), "hi");
    assert_eq!(render(text("hi"), RenderMode::PassthroughPrecision(9)), "hi");
    assert_eq!(render(text("hi"), RenderMode::PassthroughPrecision(0)), "");
    assert_eq!(render(Value::Bool(true), RenderMode::Plain), "true");
    assert_eq!(render(Value::Bool(false), RenderMode::Debug), "false");
    assert_eq!(render(Value::Bool(false), RenderMode::PassthroughDisplay), "false");
    assert_eq!(render(Value::Bool(true), RenderMode::PassthroughDebug), "true");
    assert_eq!(render(Value::Bool(true), RenderMode::PassthroughPrecision(2)), "tr");
}

#[test]
fn a_mode_that_a_value_lacks_is_an_error() {
    let fails = |v: Value, m: RenderMode| match compile(vec![lit("a"), lit("b"), slot(v, m)]) {
        Err(TemplateError::MissingCapability(1)) => true,
        _ => false,
    };
    assert!(fails(text("x"), RenderMode::Binary));
    assert!(fails(text("x"), RenderMode::Hex));
    assert!(fails(text("x"), RenderMode::Precision(1)));
    assert!(fails(text("x"), RenderMode::PassthroughBinary));
    assert!(fails(text("x"), RenderMode::PassthroughHex));
    assert!(fails(Value::Bool(true), RenderMode::Binary));
    assert!(fails(Value::Bool(true), RenderMode::Precision(0)));
    let fixed = || Value::Fixed(fmt2::number::Fixed::new(false, 1, 1).unwrap());
    assert!(fails(fixed(), RenderMode::Hex));
    assert!(fails(fixed(), RenderMode::PassthroughDisplay));
    assert!(fails(fixed(), RenderMode::PassthroughDebug));
    assert!(fails(fixed(), RenderMode::PassthroughPrecision(1)));
    assert!(!text("x").supports(&RenderMode::Binary));
    assert!(text("x").try_render(&RenderMode::Binary).is_none());
    assert_eq!(text("x").try_render(&RenderMode::Plain), Some(String::from("x")));
    assert!(RenderMode::PassthroughHex.is_passthrough());
    assert!(!RenderMode::Hex.is_passthrough());
}

#[test]
fn the_first_lacking_part_is_named() {
    let r = compile(vec![
        slot(text("x"), RenderMode::Plain),
        slot(text("x"), RenderMode::Hex),
        slot(text("x"), RenderMode::Binary),
    ]);
    assert!(matches!(r, Err(TemplateError::MissingCapability(1))));
    let r = compile(vec![
        lit("a"),
        iterate(&["x", "y"], None, vec![ItemToken::Item(RenderMode::Plain), ItemToken::Item(RenderMode::Hex)]),
    ]);
    assert!(matches!(r, Err(TemplateError::MissingCapability(1))));
    let r = compile(vec![iterate(&[], None, vec![ItemToken::Item(RenderMode::Hex)])]);
    assert!(r.is_ok());
}

#[test]
fn iteration_joins_with_the_separator() {
    let joined = |source: &[&str]| {
        format_text(vec![iterate(source, Some(", "), vec![ItemToken::Item(RenderMode::Plain)])]).unwrap()
    };
    assert_eq!(joined(&["a", "b", "c"]), "a, b, c");
    assert_eq!(joined(&["a"]), "a");
    assert_eq!(joined(&[]), "");
    let plain = format_text(vec![
        lit("["),
        iterate(
            &["a", "b"],
            None,
            vec![ItemToken::Item(RenderMode::Plain), ItemToken::Literal(String::from(";"))],
        ),
        lit("]"),
    ])
    .unwrap();
    assert_eq!(plain, "[a;b;]");
    let constant = format_text(vec![iterate(
        &["x", "y", "z"],
        None,
        vec![ItemToken::Literal(String::from("ab"))],
    )])
    .unwrap();
    assert_eq!(constant, "ababab");
}

#[test]
fn iteration_writes_element_by_element() {
    let r = compile(vec![Token::Iterate(Iterate {
        source: vec![Value::Unsigned(1), Value::Unsigned(2)],
        separator: Some(String::from("-")),
        body: vec![ItemToken::Literal(String::from("<")), ItemToken::Item(RenderMode::Binary)],
    })])
    .unwrap();
    let mut sink = Failing::new(99);
    r.write_to(&mut sink).unwrap();
    assert_eq!(sink.taken, vec!["<", "1", "-", "<", "10"]);
    let mut sink = Failing::new(3);
    assert_eq!(r.write_to(&mut sink), Err(4));
    assert_eq!(sink.taken, vec!["<", "1", "-"]);
    assert_eq!(sink.calls, 4);
}

#[test]
fn a_failing_sink_ends_the_writing() {
    let r = compile(vec![
        slot(Value::Unsigned(1), RenderMode::Plain),
        slot(Value::Unsigned(2), RenderMode::Plain),
        slot(Value::Unsigned(3), RenderMode::Plain),
    ])
    .unwrap();
    let mut sink = Failing::new(1);
    assert_eq!(r.write_to(&mut sink), Err(2));
    assert_eq!(sink.calls, 2);
    assert_eq!(sink.taken, vec!["1"]);
    let mut sink = Failing::new(2);
    assert_eq!(r.write_to(&mut sink), Err(3));
    assert_eq!(sink.calls, 3);
    assert_eq!(sink.taken, vec!["1", "2"]);
    let mut sink = Failing::new(3);
    assert_eq!(r.write_to(&mut sink), Ok(()));
    assert_eq!(sink.calls, 3);
}

#[test]
fn a_failed_write_is_not_flushed() {
    let tokens = || vec![lit("a"), slot(Value::Unsigned(2), RenderMode::Plain)];
    let mut sink = Failing::new(1);
    assert_eq!(format_to(&mut sink, tokens()).unwrap(), Err(2));
    assert_eq!(sink.flushes, 0);
    let mut sink = Failing::new(2);
    assert_eq!(format_to(&mut sink, tokens()).unwrap(), Ok(()));
    assert_eq!(sink.flushes, 1);
    let mut sink = Failing::new(2);
    let r = format_to(&mut sink, vec![lit("a"), slot(Value::Bool(true), RenderMode::Hex)]);
    assert!(matches!(r, Err(TemplateError::MissingCapability(1))));
    assert_eq!(sink.calls, 0);
    assert_eq!(sink.flushes, 0);
}

#[test]
fn a_line_buffered_sink_is_not_flushed_after_a_line() {
    let mut sink = LineBuffered { text: String::new(), flushes: 0 };
    format_to(&mut sink, vec![lit("abc"), directive(Directive::LineBreak)]).unwrap().unwrap();
    assert_eq!(sink.text, "abc\n");
    assert_eq!(sink.flushes, 0);
    format_to(&mut sink, vec![lit("abc")]).unwrap().unwrap();
    assert_eq!(sink.flushes, 1);
    format_to(&mut sink, vec![lit("\n"), slot(text("\n"), RenderMode::Plain)]).unwrap().unwrap();
    assert_eq!(sink.flushes, 2);
    let mut sink = Failing::new(9);
    format_to(&mut sink, vec![lit("abc\n")]).unwrap().unwrap();
    assert_eq!(sink.flushes, 1);
}

#[test]
fn rendering_twice_gives_the_same_text() {
    let r = compile(vec![
        lit("a"),
        slot(Value::Signed(-1), RenderMode::Plain),
        iterate(&["x", "y"], Some("+"), vec![ItemToken::Item(RenderMode::Plain)]),
        directive(Directive::LineBreak),
    ])
    .unwrap();
    let mut first = String::new();
    let mut second = String::from("before:");
    r.write_to(&mut first).unwrap();
    r.write_to(&mut second).unwrap();
    r.write_to(&mut second).unwrap();
    assert_eq!(first, "a-1x+y\n");
    assert_eq!(second, "before:a-1x+y\na-1x+y\n");
    assert_eq!(r.to_string(), first);
    assert_eq!(r.to_string(), first);
}

#[test]
fn size_hint_counts_literals_and_plain_text() {
    let r = compile(vec![
        lit("héllo"),
        slot(text("wörld"), RenderMode::Plain),
        slot(Value::Bool(false), RenderMode::Plain),
        slot(Value::Unsigned(12345), RenderMode::Plain),
        slot(text("quoted"), RenderMode::PassthroughDebug),
        iterate(&["a", "b"], None, vec![ItemToken::Item(RenderMode::Plain)]),
    ])
    .unwrap();
    assert_eq!(r.size_hint(), 6 + 6 + 5);
    assert!(r.size_hint() <= r.to_string().len());
    let exact = compile(vec![lit("123"), slot(text("abc"), RenderMode::Plain), lit("abc")]).unwrap();
    assert_eq!(exact.size_hint(), exact.to_string().len());
    assert_eq!(WriteTo::len_hint(&exact), 9);
}

#[test]
fn ends_in_terminator_is_read_off_the_last_literal() {
    let ends = |tokens: Vec<Token>| compile(tokens).unwrap().ends_in_terminator();
    assert!(ends(vec![lit("abc\n")]));
    assert!(ends(vec![lit("abc"), directive(Directive::LineBreak)]));
    assert!(ends(vec![slot(text("x"), RenderMode::Plain), lit("\n"), lit("")]));
    assert!(!ends(vec![lit("abc")]));
    assert!(!ends(vec![lit("\n"), slot(text("\n"), RenderMode::Plain)]));
    assert!(!ends(vec![lit("\n"), lit("x")]));
    assert!(WriteTo::ends_in_newline(&compile(vec![lit("a\n")]).unwrap()));
}

#[test]
fn malformed_templates_are_rejected_with_the_fragment() {
    let r = compile(vec![lit("a"), directive(Directive::MacroCall(String::from("xyz!()")))]);
    assert!(matches!(r, Err(TemplateError::MacroOutsideBrackets(ref s)) if s == "xyz!()"));
    let r = compile(vec![directive(Directive::Unrecognized(String::from("=>"))), lit("a")]);
    assert!(matches!(r, Err(TemplateError::UnrecognizedToken(ref s)) if s == "=>"));
    let r = compile(vec![
        directive(Directive::Group(vec![
            lit("a"),
            directive(Directive::Styled(
                Layer::Foreground,
                Color::Red,
                vec![directive(Directive::Unrecognized(String::from("first")))],
            )),
        ])),
        directive(Directive::MacroCall(String::from("second!()"))),
    ]);
    assert!(matches!(r, Err(TemplateError::UnrecognizedToken(ref s)) if s == "first"));
    let r = compile(vec![
        slot(text("x"), RenderMode::Hex),
        directive(Directive::MacroCall(String::from("m![]"))),
    ]);
    assert!(matches!(r, Err(TemplateError::MacroOutsideBrackets(ref s)) if s == "m![]"));
    assert!(expand(vec![directive(Directive::MacroCall(String::from("m!{}")))]).is_err());
}

#[test]
fn directives_expand_to_control_sequences() {
    let one = |d: Directive| format_text(vec![directive(d)]).unwrap();
    assert_eq!(one(Directive::LineBreak), "\n");
    assert_eq!(one(Directive::CursorShow), "\x1B[?25h");
    assert_eq!(one(Directive::CursorHide), "\x1B[?25l");
    assert_eq!(one(Directive::EnterAltScreen), "\x1B[?1049h");
    assert_eq!(one(Directive::LeaveAltScreen), "\x1B[?1049l");
    assert_eq!(one(Directive::ResetLine), "\x1B[1G\x1B[2K");
    assert_eq!(one(Directive::Clear(ClearMode::All)), "\x1B[2J");
    assert_eq!(one(Directive::Clear(ClearMode::Purge)), "\x1B[3J");
    assert_eq!(one(Directive::Clear(ClearMode::FromCursorDown)), "\x1B[J");
    assert_eq!(one(Directive::Clear(ClearMode::FromCursorUp)), "\x1B[1J");
    assert_eq!(one(Directive::Clear(ClearMode::CurrentLine)), "\x1B[2K");
    assert_eq!(one(Directive::Clear(ClearMode::UntilNewLine)), "\x1B[K");
    assert_eq!(one(Directive::LiteralCapture(String::from("lit"))), "lit");
    assert_eq!(one(Directive::Group(vec![lit("a"), lit("b")])), "ab");
    assert_eq!(one(Directive::Group(vec![])), "");
}

#[test]
fn cursor_directives_take_numbers_and_slots() {
    let one = |d: Directive| format_text(vec![directive(d)]).unwrap();
    let number = |n: u64| {
        Count::Slot(Slot { value: Value::Unsigned(n), mode: RenderMode::Plain, capture: Capture::ByValue })
    };
    assert_eq!(one(Directive::CursorMove(Direction::Up, Count::Fixed(3))), "\x1B[3A");
    assert_eq!(one(Directive::CursorMove(Direction::Down, number(12))), "\x1B[12B");
    assert_eq!(one(Directive::CursorMove(Direction::Right, Count::Fixed(0))), "\x1B[0C");
    assert_eq!(one(Directive::CursorMove(Direction::Left, Count::Fixed(65535))), "\x1B[65535D");
    assert_eq!(one(Directive::CursorMoveToX(Coord::Start)), "\x1B[1G");
    assert_eq!(one(Directive::CursorMoveToX(Coord::At(number(7)))), "\x1B[7G");
    assert_eq!(one(Directive::CursorMoveToY(Coord::Start)), "\x1B[1d");
    assert_eq!(one(Directive::CursorMoveToY(Coord::At(Count::Fixed(9)))), "\x1B[9d");
    assert_eq!(one(Directive::CursorMoveTo(Coord::Start, Coord::Start)), "\x1B[1;1H");
    assert_eq!(
        one(Directive::CursorMoveTo(Coord::At(Count::Fixed(4)), Coord::At(number(2)))),
        "\x1B[2;4H"
    );
    assert_eq!(one(Directive::CursorMoveTo(Coord::Start, Coord::At(Count::Fixed(8)))), "\x1B[8;1H");
    let fixed = compile(vec![directive(Directive::CursorMove(Direction::Up, Count::Fixed(3)))]).unwrap();
    assert_eq!(fixed.shape(), Shape::AllLiteral);
    let slotted = compile(vec![directive(Directive::CursorMove(Direction::Up, number(3)))]).unwrap();
    assert_eq!(slotted.shape(), Shape::Aggregate);
    assert_eq!(slotted.to_string(), fixed.to_string());
}

#[test]
fn styles_are_set_and_reset() {
    let one = |d: Directive| format_text(vec![directive(d)]).unwrap();
    assert_eq!(
        one(Directive::Styled(Layer::Foreground, Color::Cyan, vec![lit("x")])),
        "\x1B[38;5;14mx\x1B[39m"
    );
    assert_eq!(
        one(Directive::Styled(Layer::Background, Color::Black, vec![])),
        "\x1B[48;5;0m\x1B[49m"
    );
    assert_eq!(
        one(Directive::SetStyle(Layer::Foreground, Style::Color(Color::Rgb(1, 20, 255)))),
        "\x1B[38;2;1;20;255m"
    );
    assert_eq!(
        one(Directive::SetStyle(Layer::Background, Style::Color(Color::Indexed(200)))),
        "\x1B[48;5;200m"
    );
    assert_eq!(one(Directive::SetStyle(Layer::Foreground, Style::Reset)), "\x1B[39m");
    assert_eq!(one(Directive::SetStyle(Layer::Background, Style::Reset)), "\x1B[49m");
    let nested = one(Directive::Styled(
        Layer::Foreground,
        Color::Red,
        vec![
            lit("a"),
            directive(Directive::Styled(
                Layer::Background,
                Color::White,
                vec![slot(text("b"), RenderMode::Plain)],
            )),
        ],
    ));
    assert_eq!(nested, "\x1B[38;5;9ma\x1B[48;5;15mb\x1B[49m\x1B[39m");
}

#[test]
fn every_named_colour_has_its_place_in_the_palette() {
    let colors = [
        Color::Black,
        Color::DarkRed,
        Color::DarkGreen,
        Color::DarkYellow,
        Color::DarkBlue,
        Color::DarkMagenta,
        Color::DarkCyan,
        Color::Grey,
        Color::DarkGrey,
        Color::Red,
        Color::Green,
        Color::Yellow,
        Color::Blue,
        Color::Magenta,
        Color::Cyan,
        Color::White,
    ];
    for (i, color) in colors.iter().enumerate() {
        assert_eq!(fmt2::ansi::color_code_text(color), format!("5;{}", i));
    }
    assert_eq!(fmt2::ansi::start_text(), "\x1B[");
    assert_eq!(fmt2::ansi::direction_code_text(&Direction::Left), "D");
}

#[test]
fn an_iteration_may_hold_values_of_its_own() {
    let own = |mode: RenderMode| {
        ItemToken::Slot(Slot { value: Value::Unsigned(10), mode, capture: Capture::ByValue })
    };
    let r = format_text(vec![iterate(
        &["a", "b"],
        Some("|"),
        vec![ItemToken::Item(RenderMode::Plain), ItemToken::Literal(String::from("=")), own(RenderMode::Hex)],
    )])
    .unwrap();
    assert_eq!(r, "a=a|b=a");
    let r = compile(vec![iterate(&[], None, vec![own(RenderMode::Binary)])]).unwrap();
    assert_eq!(r.to_string(), "");
    let lacking = ItemToken::Slot(Slot {
        value: text("x"),
        mode: RenderMode::Hex,
        capture: Capture::ByValue,
    });
    let r = compile(vec![iterate(&[], None, vec![lacking])]);
    assert!(matches!(r, Err(TemplateError::MissingCapability(0))));
}
