use fmt2::str::FmtStaticStr;
use fmt2::write::{Flush, Write, WriteExt, WriteInfallible};
use fmt2::write_to::{
    finish_write, write_advanced, Fmt, FmtAdvanced, ToString, WithFmtAdvanced, WriteTo,
};

struct Test(bool);

impl WriteTo for Test {
    fn write_to<W>(&self, w: &mut W) -> Result<(), W::Error>
    where
        W: Write,
    {
        w.write_str(self.0.fmt_advanced())
    }
}

#[test]
fn write_to_borrow() {
    let k = {
        let s = "123";
        s.fmt_advanced()
    };
    ToString::to_string(k);
    let k = {
        let s = true;
        s.fmt_static_str()
    };
    ToString::to_string(k);
}

#[test]
fn write_to_write() {
    let mut s = String::new();
    s.write(&Test(true)).unwrap();
    assert_eq!(s, "true");

    let mut s = String::new();
    s.write(&Test(false)).unwrap();
    assert_eq!(s, "false");

    let mut s = String::new();
    Test(true).write_to(&mut s).unwrap();
    assert_eq!(s, "true");

    let mut s = String::new();
    Test(false).write_to(&mut s).unwrap();
    assert_eq!(s, "false");

    let mut s = String::new();
    s.write_str_infallible("123456");
    assert_eq!(s, "123456");

    let mut s = String::new();
    WriteInfallible::write_str_infallible(&mut s, "123abc");
    assert_eq!(s, "123abc");

    let mut s = String::new();
    "123abc".write_to(&mut s).unwrap();
    assert_eq!(s, "123abc");
}

#[test]
fn to_string_gives_the_text() {
    assert_eq!(ToString::to_string("123"), "123");
    assert_eq!(ToString::to_string(true.fmt_static_str()), "true");
    assert_eq!(ToString::to_string(&255u64), "255");
    assert_eq!(ToString::to_string(&-17i64), "-17");
    assert_eq!(ToString::to_string(&String::from("héllo")), "héllo");
    assert_eq!(ToString::to_string(&false), "false");
}

#[test]
fn len_hint_of_text_is_its_length_in_bytes() {
    assert_eq!("abc".len_hint(), 3);
    assert_eq!("héllo".len_hint(), 6);
    assert_eq!(String::from("↑↓").len_hint(), 6);
    assert_eq!(255u64.len_hint(), 0);
    assert!("abc\n".ends_in_newline());
    assert!(!"abc".ends_in_newline());
    assert!(!"".ends_in_newline());
    assert!(!Test(true).ends_in_newline());
    assert_eq!(Test(true).len_hint(), 0);
}

#[test]
fn writeln_adds_a_line_terminator() {
    let mut s = String::new();
    s.writeln("abc").unwrap();
    s.writeln_str("def").unwrap();
    s.write_char('é').unwrap();
    s.write_advanced::<_, false, true>("x").unwrap();
    s.flush_hint_advanced::<true, false>();
    assert_eq!(s, "abc\ndef\néx\n");
    assert_eq!(s.flush(), Ok(()));
}

#[test]
fn with_fmt_advanced_renders_through_what_it_holds() {
    let w = WithFmtAdvanced::new(7, "seven");
    assert_eq!(w.value, 7);
    assert_eq!(ToString::to_string(&w), "seven");
    let mapped = w.map_value(|v| v + 1);
    assert_eq!(mapped.value, 8);
    assert_eq!(mapped.fmt, "seven");
    let replaced = mapped.replace_value("x");
    assert_eq!(replaced.value, "x");
    assert_eq!(ToString::to_string(&replaced), "seven");
}

struct Refusing {
    left: usize,
    taken: Vec<String>,
}

impl Write for Refusing {
    type Error = &'static str;

    const IS_LINE_BUFFERED: bool = false;

    fn write_str(&mut self, s: &str) -> Result<(), Self::Error> {
        if self.left == 0 {
            return Err("full");
        }
        self.left -= 1;
        self.taken.push(String::from(s));
        Ok(())
    }
}

#[test]
fn a_slice_writes_its_items_in_order() {
    let items = [String::from("a"), String::from("b"), String::from("c")];
    let mut s = String::new();
    items[..].write_to(&mut s).unwrap();
    assert_eq!(s, "abc");
    assert_eq!(ToString::to_string(&items[..]), "abc");
    let none: [u64; 0] = [];
    assert_eq!(ToString::to_string(&none[..]), "");
    assert_eq!(ToString::to_string(&[10u64, 2, 30][..]), "10230");
    let mut sink = Refusing { left: 2, taken: Vec::new() };
    assert_eq!(items[..].write_to(&mut sink), Err("full"));
    assert_eq!(sink.taken, vec!["a", "b"]);
}

/// A sink that notes every write and every flush, and refuses the writes
/// from the one numbered `fails_at` on.
struct Noting {
    line_buffered_like: bool,
    fails_at: usize,
    noted: Vec<String>,
}

impl Noting {
    fn write(&mut self, s: &str) -> Result<(), usize> {
        let writes = self.noted.iter().filter(|n| n.as_str() != "<flush>").count();
        if writes >= self.fails_at {
            return Err(writes);
        }
        self.noted.push(String::from(s));
        Ok(())
    }
}

struct Plain(Noting);

impl Write for Plain {
    type Error = usize;

    const IS_LINE_BUFFERED: bool = false;

    fn write_str(&mut self, s: &str) -> Result<(), usize> {
        self.0.write(s)
    }

    fn flush_hint(&mut self) {
        self.0.noted.push(String::from("<flush>"));
    }
}

struct ByLine(Noting);

impl Write for ByLine {
    type Error = usize;

    const IS_LINE_BUFFERED: bool = true;

    fn write_str(&mut self, s: &str) -> Result<(), usize> {
        self.0.write(s)
    }

    fn flush_hint(&mut self) {
        self.0.noted.push(String::from("<flush>"));
    }
}

fn plain(fails_at: usize) -> Plain {
    Plain(Noting { line_buffered_like: false, fails_at, noted: Vec::new() })
}

fn by_line(fails_at: usize) -> ByLine {
    ByLine(Noting { line_buffered_like: true, fails_at, noted: Vec::new() })
}

/// Something that writes two pieces and reports that it ends a line.
struct TwoLines;

impl WriteTo for TwoLines {
    fn write_to<W>(&self, w: &mut W) -> Result<(), W::Error>
    where
        W: Write,
    {
        w.write_str("one\n")?;
        w.write_str("two\n")
    }

    fn ends_in_newline(&self) -> bool {
        true
    }
}

#[test]
fn nothing_follows_a_rendering_that_failed() {
    let mut sink = plain(1);
    assert_eq!(write_advanced(&mut sink, &TwoLines, true, true), Err(1));
    assert_eq!(sink.0.noted, vec!["one\n"]);
    let mut sink = plain(0);
    assert_eq!(sink.writeln(&Test(true)), Err(0));
    assert!(sink.0.noted.is_empty());
    let mut sink = plain(0);
    assert_eq!(sink.write("abc"), Err(0));
    assert!(sink.0.noted.is_empty());
    let mut sink = plain(2);
    assert_eq!(sink.writeln(&TwoLines), Err(2));
    assert_eq!(sink.0.noted, vec!["one\n", "two\n"]);
    let mut sink = plain(9);
    assert_eq!(finish_write(&mut sink, Err(7), true, true, false), Err(7));
    assert!(sink.0.noted.is_empty());
    assert!(!sink.0.line_buffered_like);
    let mut sink = by_line(9);
    assert_eq!(finish_write(&mut sink, Err(3), true, true, true), Err(3));
    assert!(sink.0.noted.is_empty());
    assert!(sink.0.line_buffered_like);
}

#[test]
fn the_flush_is_left_out_only_after_a_line_on_a_line_buffered_sink() {
    for flush in [false, true] {
        for newline in [false, true] {
            for known in [false, true] {
                let mut expected: Vec<&str> = Vec::new();
                if newline {
                    expected.push("\n");
                }
                let mut sink = plain(9);
                assert_eq!(finish_write(&mut sink, Ok(()), flush, newline, known), Ok(()));
                let mut on_plain = expected.clone();
                if flush {
                    on_plain.push("<flush>");
                }
                assert_eq!(sink.0.noted, on_plain);
                let mut sink = by_line(9);
                assert_eq!(finish_write(&mut sink, Ok(()), flush, newline, known), Ok(()));
                let mut on_lines = expected.clone();
                if flush && !(newline || known) {
                    on_lines.push("<flush>");
                }
                assert_eq!(sink.0.noted, on_lines);
            }
        }
    }
}

#[test]
fn the_flush_goes_by_what_the_value_reports() {
    let mut sink = by_line(9);
    assert_eq!(sink.write(&TwoLines), Ok(()));
    assert_eq!(sink.0.noted, vec!["one\n", "two\n"]);
    let mut sink = by_line(9);
    assert_eq!(sink.write(&Test(false)), Ok(()));
    assert_eq!(sink.0.noted, vec!["false", "<flush>"]);
    let mut sink = by_line(9);
    assert_eq!(sink.write("abc\n"), Ok(()));
    assert_eq!(sink.0.noted, vec!["abc\n"]);
    let mut sink = by_line(9);
    assert_eq!(sink.write("abc"), Ok(()));
    assert_eq!(sink.0.noted, vec!["abc", "<flush>"]);
    let mut sink = by_line(9);
    assert_eq!(sink.writeln("abc"), Ok(()));
    assert_eq!(sink.0.noted, vec!["abc", "\n"]);
    let mut sink = plain(9);
    assert_eq!(sink.write(&TwoLines), Ok(()));
    assert_eq!(sink.0.noted, vec!["one\n", "two\n", "<flush>"]);
    let mut sink = plain(9);
    assert_eq!(sink.write_advanced::<_, false, false>(&TwoLines), Ok(()));
    assert_eq!(sink.0.noted, vec!["one\n", "two\n"]);
    let mut sink = by_line(1);
    assert_eq!(sink.writeln("abc"), Err(1));
    assert_eq!(sink.0.noted, vec!["abc"]);
}

#[test]
fn a_value_that_is_rendered_as_it_stands_hands_out_itself() {
    let text = String::from("abc");
    assert!(std::ptr::eq(text.fmt_advanced(), &text));
    assert!(std::ptr::eq(Fmt::fmt(&text), &text));
    let word: &str = "xyz";
    assert!(std::ptr::eq(word.fmt_advanced(), word));
    let number = 7u64;
    assert!(std::ptr::eq(number.fmt_advanced(), &number));
}
