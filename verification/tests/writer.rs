use ndjson::kind::{Hue, TokenKind};
use std::io::Write;
use ndjson::writer::ColoredWriter;
use termcolor::Buffer;

fn text(writer: ColoredWriter) -> String {
    String::from_utf8(writer.into_inner().into_inner()).unwrap()
}

#[test]
fn kinds_have_their_colors() {
    assert_eq!(TokenKind::Plain.hue(), None);
    assert_eq!(TokenKind::Key.hue(), Some(Hue::Yellow));
    assert_eq!(TokenKind::Value.hue(), Some(Hue::Green));
    assert_eq!(TokenKind::String.hue(), Some(Hue::Cyan));
}

#[test]
fn each_kind_has_its_control_sequence() {
    for (kind, code) in [
        (TokenKind::Key, "\x1b[0m\x1b[38;5;11m"),
        (TokenKind::Value, "\x1b[0m\x1b[38;5;10m"),
        (TokenKind::String, "\x1b[0m\x1b[38;5;14m"),
    ] {
        let mut writer = ColoredWriter::new(Buffer::ansi());
        writer.set_kind(kind).write("x").unwrap();
        writer.set_kind(TokenKind::Plain).write("y").unwrap();
        assert_eq!(text(writer), format!("{}x\x1b[0my", code));
    }
}

#[test]
fn new_writer_starts_plain() {
    let mut writer = ColoredWriter::new(Buffer::ansi());
    writer.write("x").unwrap();
    writer.set_kind(TokenKind::Plain).write("y").unwrap();
    assert_eq!(text(writer), "xy");
}

#[test]
fn new_writer_keeps_what_the_sink_holds() {
    let mut sink = Buffer::ansi();
    sink.write_all(b"before ").unwrap();
    let mut writer = ColoredWriter::new(sink);
    writer.set_kind(TokenKind::Key).write("k").unwrap();
    assert_eq!(text(writer), "before \x1b[0m\x1b[38;5;11mk");
}

#[test]
fn same_kind_twice_emits_one_control_sequence() {
    let mut writer = ColoredWriter::new(Buffer::ansi());
    writer.set_kind(TokenKind::Key).write("a").unwrap();
    writer.set_kind(TokenKind::Key).write("b").unwrap();
    writer.write("c").unwrap();
    assert_eq!(text(writer), "\x1b[0m\x1b[38;5;11mabc");
}

#[test]
fn set_kind_alone_writes_nothing() {
    let mut writer = ColoredWriter::new(Buffer::ansi());
    writer.set_kind(TokenKind::Key);
    writer.set_kind(TokenKind::Value);
    assert_eq!(text(writer), "");
}

#[test]
fn empty_write_emits_nothing_and_keeps_the_change_pending() {
    let mut writer = ColoredWriter::new(Buffer::ansi());
    writer.set_kind(TokenKind::Value).write("").unwrap();
    writer.write("").unwrap();
    writer.write("1").unwrap();
    assert_eq!(text(writer), "\x1b[0m\x1b[38;5;10m1");
}

#[test]
fn empty_write_does_not_suppress_the_next_kind() {
    let mut writer = ColoredWriter::new(Buffer::ansi());
    writer.set_kind(TokenKind::Key).write("k").unwrap();
    writer.set_kind(TokenKind::String).write("").unwrap();
    writer.set_kind(TokenKind::Value).write("v").unwrap();
    assert_eq!(text(writer), "\x1b[0m\x1b[38;5;11mk\x1b[0m\x1b[38;5;10mv");
}

#[test]
fn returning_to_the_applied_kind_emits_nothing() {
    let mut writer = ColoredWriter::new(Buffer::ansi());
    writer.set_kind(TokenKind::Key).write("k").unwrap();
    writer.set_kind(TokenKind::String).write("").unwrap();
    writer.set_kind(TokenKind::Key).write("l").unwrap();
    assert_eq!(text(writer), "\x1b[0m\x1b[38;5;11mkl");
}

#[test]
fn sink_without_color_receives_text_only() {
    let mut writer = ColoredWriter::new(Buffer::no_color());
    writer.set_kind(TokenKind::Key).write("k").unwrap();
    writer.set_kind(TokenKind::Plain).write(": ").unwrap();
    writer.set_kind(TokenKind::String).write("caf\u{e9}").unwrap();
    assert_eq!(
        writer.into_inner().into_inner(),
        vec![b'k', b':', b' ', b'c', b'a', b'f', 0xc3, 0xa9]
    );
}
