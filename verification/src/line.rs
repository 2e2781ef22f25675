//! One line of input: shown by its structure where it holds a non-empty
//! object or array, passed through as it is otherwise.

use vstd::prelude::*;

use crate::json::{Json, JsonModel};
use crate::kind::TokenKind;
use crate::parse::{parse_line, parsed_document};
use crate::render::{members_model, members_tokens, value_tokens, write_object, write_value};
use crate::token::{lemma_emitted_one, lemma_emitted_push, plain, Token};
use crate::writer::ColoredWriter;

verus! {

/// What the result of parsing a line stands for.
pub open spec fn document_model(document: Option<Json>) -> Option<JsonModel> {
    match document {
        Some(value) => Some(value@),
        None => None,
    }
}

/// A line is shown by its structure exactly when it holds an object with at
/// least one member or an array with at least one element. Text that is no
/// document, an empty object, an empty array and a bare scalar are not.
pub open spec fn is_structured(document: Option<JsonModel>) -> bool {
    match document {
        Some(JsonModel::Object(members)) => members.len() > 0,
        Some(JsonModel::Array(items)) => items.len() > 0,
        _ => false,
    }
}

/// The tokens of a line before its newline. An object at the top of a
/// document is its members with no braces round them; an array is shown as
/// it would be anywhere; any other line is its own text, uncoloured.
pub open spec fn body_tokens(document: Option<JsonModel>, line: Seq<char>) -> Seq<Token> {
    if is_structured(document) {
        match document {
            Some(JsonModel::Object(members)) => members_tokens(members),
            Some(value) => value_tokens(value),
            None => Seq::empty(),
        }
    } else {
        seq![plain(line)]
    }
}

/// The tokens of a line: its body, then an uncoloured newline.
pub open spec fn line_tokens(document: Option<JsonModel>, line: Seq<char>) -> Seq<Token> {
    body_tokens(document, line) + seq![plain(seq!['\n'])]
}

/// Decides how a line is shown: `true` where its document is an object with
/// at least one member or an array with at least one element, `false` for
/// every other line.
pub fn shows_structure(document: &Option<Json>) -> (r: bool)
    ensures
        r == is_structured(document_model(*document)),
{
    match document {
        Some(Json::Object(object)) => {
            assert(document_model(*document)->0->Object_0.len() == object@.len());
            object.len() > 0
        },
        Some(Json::Array(array)) => {
            assert(document_model(*document)->0->Array_0.len() == array@.len());
            array.len() > 0
        },
        _ => false,
    }
}

/// Writes a line whose parsing gave `document`, and the newline that ends
/// it. After the newline the sink shows text without colour and no change
/// of kind is pending.
pub fn write_document(writer: &mut ColoredWriter, document: &Option<Json>, line: &str) -> (r:
    Result<(), std::io::Error>)
    ensures
        r is Ok,
        final(writer)@ == old(writer)@.emitted_all(
            line_tokens(document_model(*document), line@),
        ),
        final(writer)@.kind == TokenKind::Plain,
        !final(writer)@.deferred(),
{
    let ghost start = writer@;
    let ghost model = document_model(*document);
    if shows_structure(document) {
        match document {
            Some(Json::Object(object)) => {
                assert(model->0->Object_0 =~= members_model(object@));
                write_object(writer, object)?;
            },
            Some(value) => {
                write_value(writer, value)?;
            },
            None => {},
        }
    } else {
        writer.set_kind(TokenKind::Plain).write(line)?;
        proof {
            lemma_emitted_one(start, plain(line@));
        }
    }
    proof {
        reveal_strlit("\n");
        assert("\n"@ =~= seq!['\n']);
        lemma_emitted_push(start, body_tokens(model, line@), plain(seq!['\n']));
    }
    writer.set_kind(TokenKind::Plain).write("\n")
}

/// Writes one line of input and the newline that ends it. A line that holds
/// a non-empty object or array is shown by its structure; any other line is
/// written as it came.
pub fn write_line(writer: &mut ColoredWriter, line: &str) -> (r: Result<(), std::io::Error>)
    ensures
        r is Ok,
        final(writer)@ == old(writer)@.emitted_all(line_tokens(parsed_document(line@), line@)),
        final(writer)@.kind == TokenKind::Plain,
        !final(writer)@.deferred(),
{
    let document = parse_line(line);
    write_document(writer, &document, line)
}

} // verus!
