use ndjson::json::Json;
use ndjson::line::{shows_structure, write_document};
use ndjson::parse::{json_of, parse_line};
use ndjson::render::{write_object, write_value};
use ndjson::writer::ColoredWriter;
use termcolor::Buffer;

fn text(writer: ColoredWriter) -> String {
    String::from_utf8(writer.into_inner().into_inner()).unwrap()
}

fn number(text: &str) -> Json {
    Json::Number(text.to_string())
}

fn string(text: &str) -> Json {
    Json::String(text.to_string())
}

#[test]
fn parse_line_gives_the_document() {
    assert_eq!(
        parse_line(r#"{"b":[1,"x",null],"a":{"t":true,"f":false}}"#),
        Some(Json::Object(vec![
            (
                "b".to_string(),
                Json::Array(vec![number("1"), string("x"), Json::Null]),
            ),
            (
                "a".to_string(),
                Json::Object(vec![
                    ("t".to_string(), Json::Bool(true)),
                    ("f".to_string(), Json::Bool(false)),
                ]),
            ),
        ]))
    );
}

#[test]
fn parse_line_gives_scalars_and_empty_collections() {
    assert_eq!(parse_line("null"), Some(Json::Null));
    assert_eq!(parse_line("true"), Some(Json::Bool(true)));
    assert_eq!(parse_line("1e2"), Some(number("100.0")));
    assert_eq!(parse_line("-0"), Some(number("-0.0")));
    assert_eq!(parse_line("18446744073709551615"), Some(number("18446744073709551615")));
    assert_eq!(parse_line("\"\""), Some(string("")));
    assert_eq!(parse_line(" [ ] "), Some(Json::Array(vec![])));
    assert_eq!(parse_line("{ }"), Some(Json::Object(vec![])));
}

#[test]
fn parse_line_refuses_what_is_not_one_document() {
    for line in ["", "text", "{", "[1,]", "{\"a\":1} x", "1 2", "'a'", "{a:1}"] {
        assert_eq!(parse_line(line), None);
    }
}

#[test]
fn repeated_key_keeps_first_place_and_last_value() {
    assert_eq!(
        parse_line(r#"{"a":1,"b":2,"a":3}"#),
        Some(Json::Object(vec![
            ("a".to_string(), number("3")),
            ("b".to_string(), number("2")),
        ]))
    );
}

#[test]
fn json_of_reads_each_shape() {
    let value: serde_json::Value = serde_json::from_str(r#"[null,false,0.5,"s",[],{"k":[]}]"#).unwrap();
    assert_eq!(
        json_of(&value),
        Json::Array(vec![
            Json::Null,
            Json::Bool(false),
            number("0.5"),
            string("s"),
            Json::Array(vec![]),
            Json::Object(vec![("k".to_string(), Json::Array(vec![]))]),
        ])
    );
}

#[test]
fn write_value_wraps_nested_collections() {
    let value = Json::Object(vec![
        ("k".to_string(), Json::Array(vec![number("1"), number("2")])),
        ("e".to_string(), Json::Object(vec![])),
    ]);
    let mut writer = ColoredWriter::new(Buffer::no_color());
    write_value(&mut writer, &value).unwrap();
    assert_eq!(text(writer), "{ k: [1, 2] e: {} }");
}

#[test]
fn write_value_shows_empty_collections() {
    let mut writer = ColoredWriter::new(Buffer::ansi());
    write_value(&mut writer, &Json::Array(vec![])).unwrap();
    write_value(&mut writer, &Json::Object(vec![])).unwrap();
    assert_eq!(text(writer), "[]{}");
}

#[test]
fn write_value_colors_scalars_and_strings() {
    let mut writer = ColoredWriter::new(Buffer::ansi());
    write_value(&mut writer, &Json::Null).unwrap();
    write_value(&mut writer, &Json::Bool(true)).unwrap();
    write_value(&mut writer, &Json::Bool(false)).unwrap();
    write_value(&mut writer, &number("1.5")).unwrap();
    write_value(&mut writer, &string("s")).unwrap();
    assert_eq!(
        text(writer),
        "\x1b[0m\x1b[38;5;10mnulltruefalse1.5\x1b[0m\x1b[38;5;14ms"
    );
}

#[test]
fn write_object_has_no_braces() {
    let members = vec![
        ("a".to_string(), number("1")),
        ("b".to_string(), string("two")),
    ];
    let mut writer = ColoredWriter::new(Buffer::no_color());
    write_object(&mut writer, &members).unwrap();
    assert_eq!(text(writer), "a: 1 b: two");
    let mut writer = ColoredWriter::new(Buffer::ansi());
    write_object(&mut writer, &members).unwrap();
    assert_eq!(
        text(writer),
        "\x1b[0m\x1b[38;5;11ma\x1b[0m: \x1b[0m\x1b[38;5;10m1\x1b[0m \x1b[0m\x1b[38;5;11mb\x1b[0m: \x1b[0m\x1b[38;5;14mtwo"
    );
}

#[test]
fn write_object_of_nothing_writes_nothing() {
    let mut writer = ColoredWriter::new(Buffer::ansi());
    write_object(&mut writer, &vec![]).unwrap();
    assert_eq!(text(writer), "");
}

#[test]
fn write_document_passes_degenerate_documents_through() {
    for (document, line) in [
        (None, "not json"),
        (Some(Json::Null), "null"),
        (Some(number("0")), " 0"),
        (Some(string("s")), "\"s\""),
        (Some(Json::Bool(true)), "true"),
        (Some(Json::Array(vec![])), "[   ]"),
        (Some(Json::Object(vec![])), "{   }"),
    ] {
        let mut writer = ColoredWriter::new(Buffer::ansi());
        write_document(&mut writer, &document, line).unwrap();
        assert_eq!(text(writer), format!("{}\n", line));
    }
}

#[test]
fn write_document_renders_by_the_document_not_the_line() {
    let mut writer = ColoredWriter::new(Buffer::no_color());
    write_document(
        &mut writer,
        &Some(Json::Object(vec![("k".to_string(), Json::Null)])),
        "ignored",
    )
    .unwrap();
    write_document(&mut writer, &Some(Json::Array(vec![Json::Null])), "ignored").unwrap();
    assert_eq!(text(writer), "k: null\n[null]\n");
}

#[test]
fn only_non_empty_collections_show_structure() {
    assert!(shows_structure(&Some(Json::Object(vec![(
        "k".to_string(),
        Json::Null
    )]))));
    assert!(shows_structure(&Some(Json::Array(vec![Json::Array(
        vec![]
    )]))));
    for document in [
        None,
        Some(Json::Null),
        Some(Json::Bool(false)),
        Some(number("1")),
        Some(string("[1]")),
        Some(Json::Array(vec![])),
        Some(Json::Object(vec![])),
    ] {
        assert!(!shows_structure(&document));
    }
}

#[test]
fn escape_characters_in_text_pass_through() {
    let mut writer = ColoredWriter::new(Buffer::no_color());
    write_document(
        &mut writer,
        &parse_line("[\"\\u001b[0m\"]"),
        "unused",
    )
    .unwrap();
    assert_eq!(text(writer), "[\x1b[0m]\n");
}
