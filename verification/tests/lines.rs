use ndjson::line::write_line;
use ndjson::writer::ColoredWriter;
use termcolor::Buffer;

fn format(buffer: Buffer, input: &str) -> String {
    let mut buffer = ColoredWriter::new(buffer);
    write_line(&mut buffer, input).unwrap();
    let mut output = String::from_utf8(buffer.into_inner().into_inner()).unwrap();
    assert_eq!(output.pop(), Some('\n'));
    output
}

fn strip(colored: &str) -> String {
    let mut rest = colored;
    let mut out = String::new();
    while let Some(at) = rest.find("\x1b[") {
        out.push_str(&rest[..at]);
        let tail = &rest[at..];
        let end = tail.find('m').unwrap();
        rest = &tail[end + 1..];
    }
    out.push_str(rest);
    out
}

#[test]
fn test_color() {
    let colored = format(
        Buffer::ansi(),
        r#"{"null":null,"string":"string","array":[1],"object":{"key":"value"}}"#,
    );
    assert_eq!(
        colored,
        "\x1b[0m\x1b[38;5;11mnull\x1b[0m: \x1b[0m\x1b[38;5;10mnull\x1b[0m \x1b[0m\x1b[38;5;11mstring\x1b[0m: \x1b[0m\x1b[38;5;14mstring\x1b[0m \x1b[0m\x1b[38;5;11marray\x1b[0m: [\x1b[0m\x1b[38;5;10m1\x1b[0m] \x1b[0m\x1b[38;5;11mobject\x1b[0m: { \x1b[0m\x1b[38;5;11mkey\x1b[0m: \x1b[0m\x1b[38;5;14mvalue\x1b[0m }"
    );
    assert_eq!(
        strip(&colored),
        "null: null string: string array: [1] object: { key: value }"
    );
}

#[test]
fn test_unchanged() {
    for s in ["text", "0", "{   }", "[   ]"] {
        assert_eq!(format(Buffer::ansi(), s), s);
    }
}

#[test]
fn test_collections() {
    for (input, output) in [
        (r#"{"key":"value"}"#, "key: value"),
        (r#"["value"]"#, "[value]"),
        (r#"{"array":[],"object":{}}"#, "array: [] object: {}"),
        (r#"[[],{}]"#, "[[], {}]"),
        (
            r#"{"array": ["value"],"object":{"key":"value"}}"#,
            "array: [value] object: { key: value }",
        ),
        (
            r#"[["value"],{"key":"value"}]"#,
            "[[value], { key: value }]",
        ),
    ] {
        assert_eq!(format(Buffer::no_color(), input), output);
    }
}

#[test]
fn test_numbers() {
    for (input, output) in [
        ("0", "0"),
        ("1234567890", "1234567890"),
        ("0.01", "0.01"),
        ("0.00", "0.0"),
        ("1e2", "100.0"),
    ] {
        assert_eq!(
            format(Buffer::no_color(), &format!("[{}]", input)),
            format!("[{}]", output)
        );
    }
}

#[test]
fn test_empty_string() {
    assert_eq!(format(Buffer::no_color(), r#"{"":""}"#), ": ");
    assert_eq!(format(Buffer::no_color(), r#"[""]"#), "[]");
}

#[test]
fn raw_lines_are_byte_identical() {
    for s in [
        "",
        " ",
        "plain words",
        "{}",
        "[]",
        "null",
        "true",
        "false",
        "\"quoted\"",
        "-12.50",
        "{\"a\":1} trailing",
        "{\"a\":1}{\"b\":2}",
        "[1,2",
        "{\"a\"}",
        "caf\u{e9} \u{1f600}",
    ] {
        assert_eq!(format(Buffer::no_color(), s), s);
        assert_eq!(format(Buffer::ansi(), s), s);
    }
}

#[test]
fn top_level_object_has_no_braces_but_nested_has() {
    assert_eq!(
        format(Buffer::no_color(), r#"{"a":{"b":{"c":1}}}"#),
        "a: { b: { c: 1 } }"
    );
    assert_eq!(
        format(Buffer::no_color(), r#"[{"a":1},{"b":2}]"#),
        "[{ a: 1 }, { b: 2 }]"
    );
}

#[test]
fn members_keep_document_order() {
    assert_eq!(
        format(Buffer::no_color(), r#"{"z":1,"a":2,"m":3}"#),
        "z: 1 a: 2 m: 3"
    );
}

#[test]
fn scalars_show_their_canonical_text() {
    assert_eq!(
        format(Buffer::no_color(), r#"[null,true,false,-7,2.50,1E3]"#),
        "[null, true, false, -7, 2.5, 1000.0]"
    );
}

#[test]
fn strings_are_shown_unquoted_and_unescaped() {
    assert_eq!(
        format(Buffer::no_color(), r#"["a\"b","tab\there","é"]"#),
        "[a\"b, tab\there, \u{e9}]"
    );
}

#[test]
fn surrounding_whitespace_is_normalized_away() {
    assert_eq!(
        format(Buffer::no_color(), "  { \"a\" :  [ 1 ,2 ] }  "),
        "a: [1, 2]"
    );
}

#[test]
fn array_line_is_colored_by_kind() {
    assert_eq!(
        format(Buffer::ansi(), r#"["s",1,[]]"#),
        "[\x1b[0m\x1b[38;5;14ms\x1b[0m, \x1b[0m\x1b[38;5;10m1\x1b[0m, []]"
    );
}

#[test]
fn empty_text_leaves_no_control_sequence() {
    assert_eq!(format(Buffer::ansi(), r#"[""]"#), "[]");
    assert_eq!(
        format(Buffer::ansi(), r#"{"":""}"#),
        ": "
    );
    assert_eq!(
        format(Buffer::ansi(), r#"{"":"x"}"#),
        ": \x1b[0m\x1b[38;5;14mx\x1b[0m"
    );
}

#[test]
fn each_line_ends_without_color() {
    let mut writer = ColoredWriter::new(Buffer::ansi());
    write_line(&mut writer, r#"{"a":"b"}"#).unwrap();
    write_line(&mut writer, "raw").unwrap();
    write_line(&mut writer, r#"[1]"#).unwrap();
    let output = String::from_utf8(writer.into_inner().into_inner()).unwrap();
    assert_eq!(
        output,
        "\x1b[0m\x1b[38;5;11ma\x1b[0m: \x1b[0m\x1b[38;5;14mb\x1b[0m\nraw\n[\x1b[0m\x1b[38;5;10m1\x1b[0m]\n"
    );
}

#[test]
fn deep_nesting_beyond_the_parser_limit_is_raw() {
    let deep = format!("{}{}", "[".repeat(200), "]".repeat(200));
    assert_eq!(format(Buffer::no_color(), &deep), deep);
    let shallow = format!("{}1{}", "[".repeat(20), "]".repeat(20));
    assert_eq!(format(Buffer::no_color(), &shallow), shallow);
}
