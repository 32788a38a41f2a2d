use codex_monitor::framing::{event_of, Framer, Inbound};
use codex_monitor::session::Event;

fn line(text: &str) -> Inbound {
    Inbound::Line(text.to_string())
}

/// What is read of a whole stream, cut into reads of the given sizes.
fn read_all(stream: &[u8], cuts: &[usize]) -> Vec<Inbound> {
    let mut framer = Framer::new();
    let mut lines = Vec::new();
    let mut at = 0;
    for cut in cuts {
        let end = (at + cut).min(stream.len());
        lines.extend(framer.push(&stream[at..end]));
        at = end;
    }
    lines.extend(framer.push(&stream[at..]));
    lines.extend(framer.finish());
    assert_eq!(framer.finish(), None);
    lines
}

#[test]
fn lines_end_with_a_line_feed() {
    let mut framer = Framer::new();
    assert_eq!(framer.push(b""), vec![]);
    assert_eq!(framer.push(b"{\"id\":1}"), vec![]);
    assert_eq!(framer.push(b"\n"), vec![line("{\"id\":1}")]);
    assert_eq!(framer.push(b"a\nb\r\n\nc"), vec![line("a"), line("b"), line("")]);
    assert_eq!(framer.push(b"d\n"), vec![line("cd")]);
    assert_eq!(framer.finish(), None);
}

#[test]
fn the_rest_of_the_stream_is_a_line() {
    let mut framer = Framer::new();
    assert_eq!(framer.push(b"a\nrest"), vec![line("a")]);
    assert_eq!(framer.finish(), Some(line("rest")));
    assert_eq!(framer.finish(), None);
    assert_eq!(framer.push(b"x\r"), vec![]);
    assert_eq!(framer.finish(), Some(line("x\r")));
}

#[test]
fn only_one_carriage_return_goes_with_the_line_feed() {
    let mut framer = Framer::new();
    assert_eq!(framer.push(b"a\r\r\n\r\nb\rc\n"), vec![line("a\r"), line(""), line("b\rc")]);
}

#[test]
fn a_carriage_return_and_its_line_feed_may_come_in_two_reads() {
    let mut framer = Framer::new();
    assert_eq!(framer.push(b"a\r"), vec![]);
    assert_eq!(framer.push(b"\nb"), vec![line("a")]);
}

#[test]
fn a_line_that_is_not_utf8_cannot_be_read() {
    let mut framer = Framer::new();
    assert_eq!(
        framer.push(b"ok\n\xff\xfe\nnext\n\xc3\n\xc3\xa9\n"),
        vec![line("ok"), Inbound::Invalid, line("next"), Inbound::Invalid, line("é")]
    );
    assert_eq!(framer.push(b"\xe2\x98"), vec![]);
    assert_eq!(framer.finish(), Some(Inbound::Invalid));
    assert_eq!(framer.push(b"\xed\xa0\x80\n"), vec![Inbound::Invalid]);
    assert_eq!(framer.push(b"\xc0\x80\n"), vec![Inbound::Invalid]);
    assert_eq!(framer.push(b"\xf4\x90\x80\x80\n"), vec![Inbound::Invalid]);
    assert_eq!(framer.push("\u{10ffff}\u{0}\n".as_bytes()), vec![line("\u{10ffff}\u{0}")]);
}

#[test]
fn a_character_may_come_in_two_reads() {
    let mut framer = Framer::new();
    assert_eq!(framer.push(b"snow \xe2"), vec![]);
    assert_eq!(framer.push(b"\x98"), vec![]);
    assert_eq!(framer.push(b"\x83!\n"), vec![line("snow \u{2603}!")]);
}

#[test]
fn how_the_stream_is_cut_makes_no_difference() {
    let stream = "{\"id\":1,\"method\":\"a\"}\n\r\n  \n{\"m\":\"é\u{2603}\"}\r\nlast\r".as_bytes();
    let whole = read_all(stream, &[]);
    assert_eq!(
        whole,
        vec![
            line("{\"id\":1,\"method\":\"a\"}"),
            line(""),
            line("  "),
            line("{\"m\":\"é\u{2603}\"}"),
            line("last\r"),
        ]
    );
    for size in 1..stream.len() {
        let cuts = vec![size; stream.len() / size + 1];
        assert_eq!(read_all(stream, &cuts), whole, "reads of {} bytes", size);
    }
    assert_eq!(read_all(stream, &[1, 2, 3, 5, 8, 13, 21]), whole);
}

#[test]
fn framing_agrees_with_splitting_the_text() {
    for text in ["", "a", "a\n", "\n", "\n\n", "a\r\nb", "a\nb\n", "x\r\n\r\n", "é\n\u{2603}"] {
        let mut expected: Vec<Inbound> = Vec::new();
        let mut rest = text;
        while let Some(at) = rest.find('\n') {
            let raw = &rest[..at];
            expected.push(line(raw.strip_suffix('\r').unwrap_or(raw)));
            rest = &rest[at + 1..];
        }
        if !rest.is_empty() {
            expected.push(line(rest));
        }
        assert_eq!(read_all(text.as_bytes(), &[2, 1]), expected, "{:?}", text);
    }
}

#[test]
fn a_line_that_cannot_be_read_ends_the_connection() {
    assert_eq!(event_of(line("{}")), Event::Line("{}".to_string()));
    assert_eq!(event_of(Inbound::Invalid), Event::Disconnected);
}
