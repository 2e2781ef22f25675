//! The text of a rendering: what is left of it when colour is taken away.

use vstd::prelude::*;

use crate::json::JsonModel;
use crate::kind::TokenKind;
use crate::line::{body_tokens, is_structured, line_tokens};
use crate::render::{elements_tokens, member_tokens, members_tokens, scalar_text, value_tokens};
use crate::token::{plain, Token};

verus! {

/// The texts of a run of tokens, joined in their order.
pub open spec fn tokens_text(tokens: Seq<Token>) -> Seq<char>
    decreases tokens.len(),
{
    if tokens.len() == 0 {
        Seq::empty()
    } else {
        tokens_text(tokens.drop_last()) + tokens.last().text
    }
}

/// A value as plain text: a string by its content, a scalar by its text, an
/// array as `[v1, v2, ...]`, an object as `{ k1: v1 k2: v2 ... }`, or `{}`
/// where it has no member.
pub open spec fn value_text(value: JsonModel) -> Seq<char>
    decreases value,
{
    match value {
        JsonModel::String(text) => text,
        JsonModel::Array(items) => seq!['['] + elements_text(items) + seq![']'],
        JsonModel::Object(members) => if members.len() == 0 {
            seq!['{', '}']
        } else {
            seq!['{', ' '] + members_text(members) + seq![' ', '}']
        },
        _ => scalar_text(value),
    }
}

/// The elements of an array as plain text, `, ` between two of them.
pub open spec fn elements_text(items: Seq<JsonModel>) -> Seq<char>
    decreases items,
{
    if items.len() == 0 {
        Seq::empty()
    } else if items.len() == 1 {
        value_text(items.last())
    } else {
        elements_text(items.drop_last()) + seq![',', ' '] + value_text(items.last())
    }
}

/// One member as plain text: `key: value`.
pub open spec fn member_text(member: (Seq<char>, JsonModel)) -> Seq<char>
    decreases member,
{
    member.0 + seq![':', ' '] + value_text(member.1)
}

/// The members of an object as plain text, one space between two of them.
pub open spec fn members_text(members: Seq<(Seq<char>, JsonModel)>) -> Seq<char>
    decreases members,
{
    if members.len() == 0 {
        Seq::empty()
    } else if members.len() == 1 {
        member_text(members.last())
    } else {
        members_text(members.drop_last()) + seq![' '] + member_text(members.last())
    }
}

/// A line as plain text. A non-empty object at the top is `k1: v1 k2: v2 ...`
/// with no braces; a non-empty array is `[v1, v2, ...]`; any other line is
/// itself. A newline ends each.
pub open spec fn line_text(document: Option<JsonModel>, line: Seq<char>) -> Seq<char> {
    (if is_structured(document) {
        match document {
            Some(JsonModel::Object(members)) => members_text(members),
            Some(value) => value_text(value),
            None => Seq::empty(),
        }
    } else {
        line
    }) + seq!['\n']
}

/// The text of one token is that token's text.
pub proof fn lemma_text_one(token: Token)
    ensures
        tokens_text(seq![token]) == token.text,
{
    let run = seq![token];
    assert(run.drop_last() =~= Seq::<Token>::empty());
    assert(tokens_text(run.drop_last()) =~= Seq::<char>::empty());
    assert(tokens_text(run) =~= token.text);
}

/// The text of two runs joined is their texts joined.
pub proof fn lemma_text_concat(first: Seq<Token>, second: Seq<Token>)
    ensures
        tokens_text(first + second) == tokens_text(first) + tokens_text(second),
    decreases second.len(),
{
    if second.len() == 0 {
        assert(first + second =~= first);
        assert(tokens_text(first) + tokens_text(second) =~= tokens_text(first));
    } else {
        assert((first + second).drop_last() =~= first + second.drop_last());
        assert((first + second).last() == second.last());
        lemma_text_concat(first, second.drop_last());
        assert(tokens_text(first + second) =~= tokens_text(first) + tokens_text(second));
    }
}

/// Taking the colour away from the tokens of a value leaves the value as
/// plain text.
pub proof fn lemma_value_text(value: JsonModel)
    ensures
        tokens_text(value_tokens(value)) == value_text(value),
    decreases value, 0nat,
{
    match value {
        JsonModel::String(text) => {
            lemma_text_one(Token { kind: TokenKind::String, text });
        },
        JsonModel::Array(items) => {
            let open = seq![plain(seq!['['])];
            let close = seq![plain(seq![']'])];
            lemma_elements_text(items);
            lemma_text_concat(open + elements_tokens(items), close);
            lemma_text_concat(open, elements_tokens(items));
            lemma_text_one(plain(seq!['[']));
            lemma_text_one(plain(seq![']']));
        },
        JsonModel::Object(members) => {
            if members.len() == 0 {
                lemma_text_one(plain(seq!['{', '}']));
            } else {
                let open = seq![plain(seq!['{', ' '])];
                let close = seq![plain(seq![' ', '}'])];
                lemma_members_text(members);
                lemma_text_concat(open + members_tokens(members), close);
                lemma_text_concat(open, members_tokens(members));
                lemma_text_one(plain(seq!['{', ' ']));
                lemma_text_one(plain(seq![' ', '}']));
            }
        },
        _ => {
            lemma_text_one(Token { kind: TokenKind::Value, text: scalar_text(value) });
        },
    }
}

/// Taking the colour away from the tokens of the elements of an array leaves
/// the elements as plain text.
pub proof fn lemma_elements_text(items: Seq<JsonModel>)
    ensures
        tokens_text(elements_tokens(items)) == elements_text(items),
    decreases items, 1nat,
{
    if items.len() == 0 {
    } else if items.len() == 1 {
        lemma_value_text(items.last());
    } else {
        let head = elements_tokens(items.drop_last());
        let comma = seq![plain(seq![',', ' '])];
        lemma_elements_text(items.drop_last());
        lemma_value_text(items.last());
        lemma_text_concat(head + comma, value_tokens(items.last()));
        lemma_text_concat(head, comma);
        lemma_text_one(plain(seq![',', ' ']));
    }
}

/// Taking the colour away from the tokens of a member leaves `key: value`.
pub proof fn lemma_member_text(member: (Seq<char>, JsonModel))
    ensures
        tokens_text(member_tokens(member)) == member_text(member),
    decreases member, 1nat,
{
    let key = Token { kind: TokenKind::Key, text: member.0 };
    let colon = plain(seq![':', ' ']);
    lemma_value_text(member.1);
    assert(seq![key, colon] =~= seq![key] + seq![colon]);
    lemma_text_concat(seq![key, colon], value_tokens(member.1));
    lemma_text_concat(seq![key], seq![colon]);
    lemma_text_one(key);
    lemma_text_one(colon);
}

/// Taking the colour away from the tokens of the members of an object leaves
/// the members as plain text.
pub proof fn lemma_members_text(members: Seq<(Seq<char>, JsonModel)>)
    ensures
        tokens_text(members_tokens(members)) == members_text(members),
    decreases members, 2nat,
{
    if members.len() == 0 {
    } else if members.len() == 1 {
        lemma_member_text(members.last());
    } else {
        let head = members_tokens(members.drop_last());
        let space = seq![plain(seq![' '])];
        lemma_members_text(members.drop_last());
        lemma_member_text(members.last());
        lemma_text_concat(head + space, member_tokens(members.last()));
        lemma_text_concat(head, space);
        lemma_text_one(plain(seq![' ']));
    }
}

/// Taking the colour away from the tokens of a line leaves the line as plain
/// text: the structure of a non-empty object or array, and any other line
/// exactly as it came.
pub proof fn lemma_line_text(document: Option<JsonModel>, line: Seq<char>)
    ensures
        tokens_text(line_tokens(document, line)) == line_text(document, line),
        !is_structured(document) ==> line_text(document, line) == line + seq!['\n'],
{
    lemma_text_concat(body_tokens(document, line), seq![plain(seq!['\n'])]);
    lemma_text_one(plain(seq!['\n']));
    if is_structured(document) {
        match document {
            Some(JsonModel::Object(members)) => {
                lemma_members_text(members);
            },
            Some(value) => {
                lemma_value_text(value);
            },
            None => {},
        }
    } else {
        lemma_text_one(plain(line));
    }
}

} // verus!
