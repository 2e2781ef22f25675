//! The rendering of a JSON value as a run of coloured tokens.

use vstd::prelude::*;

use crate::json::{member_model, Json, JsonModel};
use crate::kind::TokenKind;
use crate::token::{lemma_emitted_concat, lemma_emitted_one, lemma_emitted_push, plain, Token};
use crate::writer::{ColoredWriter, WriterState};

verus! {

/// The text of a value that is neither a string nor a collection: the
/// literal `null`, `true` or `false`, or the canonical text of a number.
pub open spec fn scalar_text(value: JsonModel) -> Seq<char> {
    match value {
        JsonModel::Null => seq!['n', 'u', 'l', 'l'],
        JsonModel::Bool(b) => if b {
            seq!['t', 'r', 'u', 'e']
        } else {
            seq!['f', 'a', 'l', 's', 'e']
        },
        JsonModel::Number(text) => text,
        _ => Seq::empty(),
    }
}

/// The tokens of a value wherever it stands below the top of a document.
///
/// A string is its content, unquoted, of kind `String`. A number, a boolean
/// and `null` are one token of kind `Value`. An array is its elements between
/// `[` and `]`. An object with no member is `{}`; any other is its members
/// between `{ ` and ` }`.
pub open spec fn value_tokens(value: JsonModel) -> Seq<Token>
    decreases value,
{
    match value {
        JsonModel::String(text) => seq![Token { kind: TokenKind::String, text }],
        JsonModel::Array(items) => seq![plain(seq!['['])] + elements_tokens(items) + seq![
            plain(seq![']']),
        ],
        JsonModel::Object(members) => if members.len() == 0 {
            seq![plain(seq!['{', '}'])]
        } else {
            seq![plain(seq!['{', ' '])] + members_tokens(members) + seq![plain(seq![' ', '}'])]
        },
        _ => seq![Token { kind: TokenKind::Value, text: scalar_text(value) }],
    }
}

/// The tokens of the elements of an array: each element but the first is
/// preceded by `, `.
pub open spec fn elements_tokens(items: Seq<JsonModel>) -> Seq<Token>
    decreases items,
{
    if items.len() == 0 {
        Seq::empty()
    } else if items.len() == 1 {
        value_tokens(items.last())
    } else {
        elements_tokens(items.drop_last()) + seq![plain(seq![',', ' '])] + value_tokens(
            items.last(),
        )
    }
}

/// The tokens of one member of an object: the key, of kind `Key`, then `: `,
/// then the value.
pub open spec fn member_tokens(member: (Seq<char>, JsonModel)) -> Seq<Token>
    decreases member,
{
    seq![Token { kind: TokenKind::Key, text: member.0 }, plain(seq![':', ' '])] + value_tokens(
        member.1,
    )
}

/// The tokens of the members of an object, with no braces round them: each
/// member but the first is preceded by one space.
pub open spec fn members_tokens(members: Seq<(Seq<char>, JsonModel)>) -> Seq<Token>
    decreases members,
{
    if members.len() == 0 {
        Seq::empty()
    } else if members.len() == 1 {
        member_tokens(members.last())
    } else {
        members_tokens(members.drop_last()) + seq![plain(seq![' '])] + member_tokens(
            members.last(),
        )
    }
}

/// What the members of an object stand for, in their order.
pub open spec fn members_model(members: Seq<(String, Json)>) -> Seq<(Seq<char>, JsonModel)> {
    Seq::new(members.len(), |i: int| member_model(members[i]))
}

/// What the elements of an array stand for, in their order.
pub open spec fn elements_model(items: Seq<Json>) -> Seq<JsonModel> {
    Seq::new(items.len(), |i: int| items[i]@)
}

/// One more element: the run for the first `done + 1` elements is the run for
/// the first `done`, then the separator unless the element is the first,
/// then the element.
proof fn lemma_elements_step(state: WriterState, items: Seq<JsonModel>, done: int)
    requires
        0 <= done < items.len(),
    ensures
        state.emitted_all(elements_tokens(items.take(done + 1))) == (if done == 0 {
            state
        } else {
            state.emitted_all(elements_tokens(items.take(done))).emitted(plain(seq![',', ' ']))
        }).emitted_all(value_tokens(items[done])),
{
    let next = items.take(done + 1);
    assert(next.last() == items[done]);
    if done > 0 {
        assert(next.drop_last() =~= items.take(done));
        let head = elements_tokens(items.take(done));
        lemma_emitted_concat(state, head + seq![plain(seq![',', ' '])], value_tokens(items[done]));
        lemma_emitted_push(state, head, plain(seq![',', ' ']));
    }
}

/// A member is emitted as its key, the separator `: `, and its value.
proof fn lemma_member(state: WriterState, member: (Seq<char>, JsonModel))
    ensures
        state.emitted_all(member_tokens(member)) == state.emitted(
            Token { kind: TokenKind::Key, text: member.0 },
        ).emitted(plain(seq![':', ' '])).emitted_all(value_tokens(member.1)),
{
    let key = Token { kind: TokenKind::Key, text: member.0 };
    let colon = plain(seq![':', ' ']);
    assert(seq![key, colon] =~= seq![key] + seq![colon]);
    lemma_emitted_concat(state, seq![key, colon], value_tokens(member.1));
    lemma_emitted_push(state, seq![key], colon);
    lemma_emitted_one(state, key);
}

/// One more member: the run for the first `done + 1` members is the run for
/// the first `done`, then a space unless the member is the first, then the
/// member.
proof fn lemma_members_step(state: WriterState, members: Seq<(Seq<char>, JsonModel)>, done: int)
    requires
        0 <= done < members.len(),
    ensures
        state.emitted_all(members_tokens(members.take(done + 1))) == (if done == 0 {
            state
        } else {
            state.emitted_all(members_tokens(members.take(done))).emitted(plain(seq![' ']))
        }).emitted_all(member_tokens(members[done])),
{
    let next = members.take(done + 1);
    assert(next.last() == members[done]);
    if done > 0 {
        assert(next.drop_last() =~= members.take(done));
        let head = members_tokens(members.take(done));
        lemma_emitted_concat(state, head + seq![plain(seq![' '])], member_tokens(members[done]));
        lemma_emitted_push(state, head, plain(seq![' ']));
    }
}

/// A run between two tokens is emitted as the first token, the run, and the
/// second token.
proof fn lemma_enclosed(state: WriterState, open: Token, inner: Seq<Token>, close: Token)
    ensures
        state.emitted_all(seq![open] + inner + seq![close]) == state.emitted(open).emitted_all(
            inner,
        ).emitted(close),
{
    lemma_emitted_push(state, seq![open] + inner, close);
    lemma_emitted_concat(state, seq![open], inner);
    lemma_emitted_one(state, open);
}

/// Writes a value as it is shown below the top of a document: a string by
/// its content, a number, a boolean or `null` by its text, an array between
/// brackets, an object between braces.
pub fn write_value(writer: &mut ColoredWriter, value: &Json) -> (r: Result<(), std::io::Error>)
    ensures
        r is Ok,
        final(writer)@ == old(writer)@.emitted_all(value_tokens(value@)),
    decreases value,
{
    let ghost start = writer@;
    match value {
        Json::String(string) => {
            let r = writer.set_kind(TokenKind::String).write(string.as_str());
            proof {
                lemma_emitted_one(start, Token { kind: TokenKind::String, text: string@ });
            }
            r
        },
        Json::Array(array) => {
            let ghost items = elements_model(array@);
            assert(value@ == JsonModel::Array(items)) by {
                assert(value@->Array_0 =~= items);
            }
            proof {
                reveal_strlit("[");
                reveal_strlit(", ");
                reveal_strlit("]");
                assert("["@ =~= seq!['[']);
                assert(", "@ =~= seq![',', ' ']);
                assert("]"@ =~= seq![']']);
            }
            writer.set_kind(TokenKind::Plain).write("[")?;
            let ghost base = writer@;
            let mut index: usize = 0;
            while index < array.len()
                invariant
                    index <= array.len(),
                    *value == Json::Array(*array),
                    items == elements_model(array@),
                    base == start.emitted(plain(seq!['['])),
                    ", "@ == seq![',', ' '],
                    writer@ == base.emitted_all(elements_tokens(items.take(index as int))),
                decreases array.len() - index,
            {
                if index != 0 {
                    writer.set_kind(TokenKind::Plain).write(", ")?;
                }
                write_value(writer, &array[index])?;
                proof {
                    lemma_elements_step(base, items, index as int);
                }
                index += 1;
            }
            let r = writer.set_kind(TokenKind::Plain).write("]");
            proof {
                assert(items.take(index as int) =~= items);
                lemma_enclosed(start, plain(seq!['[']), elements_tokens(items), plain(seq![']']));
            }
            r
        },
        Json::Object(object) => {
            let ghost members = members_model(object@);
            assert(value@ == JsonModel::Object(members)) by {
                assert(value@->Object_0 =~= members);
            }
            if object.len() == 0 {
                proof {
                    reveal_strlit("{}");
                    assert("{}"@ =~= seq!['{', '}']);
                    lemma_emitted_one(start, plain(seq!['{', '}']));
                }
                writer.set_kind(TokenKind::Plain).write("{}")
            } else {
                proof {
                    reveal_strlit("{ ");
                    reveal_strlit(" }");
                    assert("{ "@ =~= seq!['{', ' ']);
                    assert(" }"@ =~= seq![' ', '}']);
                    lemma_enclosed(
                        start,
                        plain(seq!['{', ' ']),
                        members_tokens(members),
                        plain(seq![' ', '}']),
                    );
                }
                writer.set_kind(TokenKind::Plain).write("{ ")?;
                write_object(writer, object)?;
                writer.set_kind(TokenKind::Plain).write(" }")
            }
        },
        Json::Number(text) => {
            proof {
                lemma_emitted_one(start, Token { kind: TokenKind::Value, text: text@ });
            }
            writer.set_kind(TokenKind::Value).write(text.as_str())
        },
        Json::Bool(truth) => {
            proof {
                reveal_strlit("true");
                reveal_strlit("false");
                assert("true"@ =~= seq!['t', 'r', 'u', 'e']);
                assert("false"@ =~= seq!['f', 'a', 'l', 's', 'e']);
                lemma_emitted_one(start, Token { kind: TokenKind::Value, text: scalar_text(value@) });
            }
            writer.set_kind(TokenKind::Value).write(if *truth { "true" } else { "false" })
        },
        Json::Null => {
            proof {
                reveal_strlit("null");
                assert("null"@ =~= seq!['n', 'u', 'l', 'l']);
                lemma_emitted_one(start, Token { kind: TokenKind::Value, text: scalar_text(value@) });
            }
            writer.set_kind(TokenKind::Value).write("null")
        },
    }
}

/// Writes the members of an object with no braces round them: each as its
/// key, `: ` and its value, and one space between two members.
pub fn write_object(writer: &mut ColoredWriter, object: &Vec<(String, Json)>) -> (r: Result<
    (),
    std::io::Error,
>)
    ensures
        r is Ok,
        final(writer)@ == old(writer)@.emitted_all(members_tokens(members_model(object@))),
    decreases object,
{
    let ghost start = writer@;
    let ghost members = members_model(object@);
    proof {
        reveal_strlit(" ");
        reveal_strlit(": ");
        assert(" "@ =~= seq![' ']);
        assert(": "@ =~= seq![':', ' ']);
    }
    let mut index: usize = 0;
    while index < object.len()
        invariant
            index <= object.len(),
            members == members_model(object@),
            " "@ == seq![' '],
            ": "@ == seq![':', ' '],
            writer@ == start.emitted_all(members_tokens(members.take(index as int))),
        decreases object.len() - index,
    {
        if index != 0 {
            writer.set_kind(TokenKind::Plain).write(" ")?;
        }
        let ghost before = writer@;
        let member = &object[index];
        writer.set_kind(TokenKind::Key).write(member.0.as_str())?;
        writer.set_kind(TokenKind::Plain).write(": ")?;
        write_value(writer, &member.1)?;
        proof {
            lemma_member(before, members[index as int]);
            lemma_members_step(start, members, index as int);
        }
        index += 1;
    }
    proof {
        assert(members.take(index as int) =~= members);
    }
    Ok(())
}

} // verus!
