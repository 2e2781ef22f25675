//! Taking the colour-control sequences out of what a sink holds, and what
//! is left when that is done to a rendering.

use vstd::prelude::*;
use vstd::utf8::{
    encode_scalar, encode_utf8, last_continuation_byte, leading_byte_width_1,
    leading_byte_width_2, leading_byte_width_3, leading_byte_width_4,
    second_last_continuation_byte, third_last_continuation_byte,
};

use crate::json::JsonModel;
use crate::kind::{control_code, foreground_code, hue_of, reset_code, Hue, TokenKind};
use crate::line::{is_structured, line_tokens};
use crate::text::{lemma_line_text, line_text, tokens_text};
use crate::token::Token;
use crate::writer::WriterState;

verus! {

/// The escape byte, which opens every control sequence.
pub open spec fn escape_byte() -> u8 {
    0x1bu8
}

/// A byte that may stand among the parameters of a control sequence: a
/// decimal digit or a semicolon.
pub open spec fn is_parameter(byte: u8) -> bool {
    (0x30u8 <= byte && byte <= 0x39u8) || byte == 0x3bu8
}

/// The first place at or after `from` that holds no parameter byte; the
/// length of `bytes` where every byte from there on is one.
pub open spec fn parameters_end(bytes: Seq<u8>, from: int) -> int
    decreases bytes.len() - from,
{
    if 0 <= from < bytes.len() && is_parameter(bytes[from]) {
        parameters_end(bytes, from + 1)
    } else {
        from
    }
}

/// The length of the colour-control sequence that `bytes` begins with, or 0
/// where it begins with none. Such a sequence is the escape byte, `[`, any
/// number of digits and semicolons, and `m`.
pub open spec fn control_length(bytes: Seq<u8>) -> int {
    let end = parameters_end(bytes, 2);
    if bytes.len() > 2 && bytes[0] == escape_byte() && bytes[1] == 0x5bu8 && 2 <= end
        < bytes.len() && bytes[end] == 0x6du8 {
        end + 1
    } else {
        0
    }
}

/// What is left of `bytes` when every colour-control sequence is taken out,
/// reading from the front.
pub open spec fn stripped(bytes: Seq<u8>) -> Seq<u8>
    decreases bytes.len(),
{
    if bytes.len() == 0 {
        bytes
    } else if control_length(bytes) > 0 {
        stripped(bytes.skip(control_length(bytes)))
    } else {
        seq![bytes[0]] + stripped(bytes.skip(1))
    }
}

/// Every escape byte in `bytes` opens a colour-control sequence that is
/// complete, so that nothing appended later can become part of one.
pub open spec fn well_delimited(bytes: Seq<u8>) -> bool
    decreases bytes.len(),
{
    if bytes.len() == 0 {
        true
    } else if control_length(bytes) > 0 {
        well_delimited(bytes.skip(control_length(bytes)))
    } else {
        bytes[0] != escape_byte() && well_delimited(bytes.skip(1))
    }
}

/// The text holds no escape character.
pub open spec fn escape_free(text: Seq<char>) -> bool {
    forall|i: int| 0 <= i < text.len() ==> text[i] != '\x1b'
}

/// The bytes hold no escape byte.
pub open spec fn escape_free_bytes(bytes: Seq<u8>) -> bool {
    forall|i: int| 0 <= i < bytes.len() ==> bytes[i] != escape_byte()
}

proof fn lemma_parameters_end_prefix(first: Seq<u8>, second: Seq<u8>, from: int)
    requires
        0 <= from <= first.len(),
        parameters_end(first, from) < first.len(),
    ensures
        parameters_end(first + second, from) == parameters_end(first, from),
        from <= parameters_end(first, from),
    decreases first.len() - from,
{
    if from < first.len() {
        assert((first + second)[from] == first[from]);
        if is_parameter(first[from]) {
            lemma_parameters_end_prefix(first, second, from + 1);
        }
    }
}

/// A control sequence at the front stays the same one whatever follows it.
proof fn lemma_control_prefix(first: Seq<u8>, second: Seq<u8>)
    requires
        control_length(first) > 0,
    ensures
        control_length(first + second) == control_length(first),
        control_length(first) <= first.len(),
{
    lemma_parameters_end_prefix(first, second, 2);
    let end = parameters_end(first, 2);
    assert((first + second)[0] == first[0]);
    assert((first + second)[1] == first[1]);
    assert((first + second)[end] == first[end]);
}

/// Stripping goes through a join whose first part is well delimited.
pub proof fn lemma_stripped_concat(first: Seq<u8>, second: Seq<u8>)
    requires
        well_delimited(first),
    ensures
        stripped(first + second) == stripped(first) + stripped(second),
        well_delimited(second) ==> well_delimited(first + second),
    decreases first.len(),
{
    if first.len() == 0 {
        assert(first + second =~= second);
        assert(stripped(first) + stripped(second) =~= stripped(second));
    } else if control_length(first) > 0 {
        let n = control_length(first);
        lemma_control_prefix(first, second);
        assert((first + second).skip(n) =~= first.skip(n) + second);
        lemma_stripped_concat(first.skip(n), second);
    } else {
        assert((first + second)[0] == first[0]);
        assert(control_length(first + second) == 0);
        assert((first + second).skip(1) =~= first.skip(1) + second);
        lemma_stripped_concat(first.skip(1), second);
        assert(stripped(first + second) =~= stripped(first) + stripped(second));
    }
}

/// Bytes with no escape byte among them are left as they are.
pub proof fn lemma_stripped_text(bytes: Seq<u8>)
    requires
        escape_free_bytes(bytes),
    ensures
        stripped(bytes) == bytes,
        well_delimited(bytes),
    decreases bytes.len(),
{
    if bytes.len() > 0 {
        assert(bytes[0] != escape_byte());
        let rest = bytes.skip(1);
        assert forall|i: int| 0 <= i < rest.len() implies rest[i] != escape_byte() by {
            assert(rest[i] == bytes[i + 1]);
        }
        lemma_stripped_text(rest);
        assert(seq![bytes[0]] + rest =~= bytes);
    }
}

/// The reset sequence is one control sequence and nothing else.
proof fn lemma_stripped_reset()
    ensures
        stripped(reset_code()) == Seq::<u8>::empty(),
        well_delimited(reset_code()),
{
    let code = reset_code();
    reveal_with_fuel(parameters_end, 3);
    assert(parameters_end(code, 2) == 3);
    assert(control_length(code) == 4);
    assert(code.skip(4) =~= Seq::<u8>::empty());
    assert(stripped(code.skip(4)) =~= Seq::<u8>::empty());
    assert(well_delimited(code.skip(4)));
}

/// The sequence that selects a colour is one control sequence and nothing
/// else.
proof fn lemma_stripped_foreground(hue: Hue)
    ensures
        stripped(foreground_code(hue)) == Seq::<u8>::empty(),
        well_delimited(foreground_code(hue)),
{
    let code = foreground_code(hue);
    assert(code.len() == 10);
    assert(code[0] == 0x1bu8 && code[1] == 0x5bu8 && code[2] == 0x33u8 && code[3] == 0x38u8
        && code[4] == 0x3bu8 && code[5] == 0x35u8 && code[6] == 0x3bu8 && code[9] == 0x6du8);
    assert(is_parameter(code[7]) && is_parameter(code[8]));
    reveal_with_fuel(parameters_end, 10);
    assert(parameters_end(code, 2) == 9);
    assert(control_length(code) == 10);
    assert(code.skip(10) =~= Seq::<u8>::empty());
    assert(stripped(code.skip(10)) =~= Seq::<u8>::empty());
    assert(well_delimited(code.skip(10)));
}

/// Whatever announces a kind is made of control sequences alone.
pub proof fn lemma_stripped_control(colored: bool, kind: TokenKind)
    ensures
        stripped(control_code(colored, kind)) == Seq::<u8>::empty(),
        well_delimited(control_code(colored, kind)),
{
    if colored {
        lemma_stripped_reset();
        match hue_of(kind) {
            None => {},
            Some(hue) => {
                lemma_stripped_foreground(hue);
                lemma_stripped_concat(reset_code(), foreground_code(hue));
                assert(stripped(reset_code()) + stripped(foreground_code(hue))
                    =~= Seq::<u8>::empty());
            },
        }
    }
}

proof fn lemma_scalar_bits(c: u32)
    by (bit_vector)
    requires
        c != 0x1bu32,
    ensures
        c <= 0x7fu32 ==> (c & 0x7F) as u8 != 0x1bu8,
        0xC0u8 | ((c >> 6) & 0x1F) as u8 != 0x1bu8,
        0xE0u8 | ((c >> 12) & 0x0F) as u8 != 0x1bu8,
        0xF0u8 | ((c >> 18) & 0x7) as u8 != 0x1bu8,
        0x80u8 | (c & 0x3F) as u8 != 0x1bu8,
        0x80u8 | ((c >> 6) & 0x3F) as u8 != 0x1bu8,
        0x80u8 | ((c >> 12) & 0x3F) as u8 != 0x1bu8,
{
}

/// A character other than escape has no escape byte in its encoding.
proof fn lemma_escape_free_scalar(c: char)
    requires
        c != '\x1b',
    ensures
        escape_free_bytes(encode_scalar(c as u32)),
{
    let s = c as u32;
    lemma_scalar_bits(s);
    assert(leading_byte_width_1(s) == (s & 0x7F) as u8);
    assert(leading_byte_width_2(s) == 0xC0u8 | ((s >> 6) & 0x1F) as u8);
    assert(leading_byte_width_3(s) == 0xE0u8 | ((s >> 12) & 0x0F) as u8);
    assert(leading_byte_width_4(s) == 0xF0u8 | ((s >> 18) & 0x7) as u8);
    assert(last_continuation_byte(s) == 0x80u8 | (s & 0x3F) as u8);
    assert(second_last_continuation_byte(s) == 0x80u8 | ((s >> 6) & 0x3F) as u8);
    assert(third_last_continuation_byte(s) == 0x80u8 | ((s >> 12) & 0x3F) as u8);
}

/// Text with no escape character has no escape byte in its encoding.
pub proof fn lemma_escape_free_encoding(text: Seq<char>)
    requires
        escape_free(text),
    ensures
        escape_free_bytes(encode_utf8(text)),
    decreases text.len(),
{
    if text.len() > 0 {
        let head = encode_scalar(text[0] as u32);
        let rest = text.drop_first();
        assert forall|i: int| 0 <= i < rest.len() implies rest[i] != '\x1b' by {
            assert(rest[i] == text[i + 1]);
        }
        lemma_escape_free_scalar(text[0]);
        lemma_escape_free_encoding(rest);
        let tail = encode_utf8(rest);
        assert forall|i: int| 0 <= i < (head + tail).len() implies (head + tail)[i]
            != escape_byte() by {
            if i < head.len() {
                assert((head + tail)[i] == head[i]);
            } else {
                assert((head + tail)[i] == tail[i - head.len()]);
            }
        }
    }
}

/// The encoding of two texts joined is their encodings joined.
pub proof fn lemma_encoding_concat(first: Seq<char>, second: Seq<char>)
    ensures
        encode_utf8(first + second) == encode_utf8(first) + encode_utf8(second),
    decreases first.len(),
{
    if first.len() == 0 {
        assert(first + second =~= second);
        assert(encode_utf8(first) + encode_utf8(second) =~= encode_utf8(second));
    } else {
        assert((first + second).drop_first() =~= first.drop_first() + second);
        assert((first + second)[0] == first[0]);
        lemma_encoding_concat(first.drop_first(), second);
        assert(encode_utf8(first + second) =~= encode_utf8(first) + encode_utf8(second));
    }
}

/// Where the joined text of a run holds no escape character, no token of
/// the run holds one.
pub proof fn lemma_escape_free_tokens(tokens: Seq<Token>)
    requires
        escape_free(tokens_text(tokens)),
    ensures
        forall|i: int| 0 <= i < tokens.len() ==> escape_free(#[trigger] tokens[i].text),
    decreases tokens.len(),
{
    if tokens.len() > 0 {
        let head = tokens_text(tokens.drop_last());
        let last = tokens.last().text;
        assert forall|k: int| 0 <= k < head.len() implies head[k] != '\x1b' by {
            assert((head + last)[k] == head[k]);
        }
        assert forall|k: int| 0 <= k < last.len() implies last[k] != '\x1b' by {
            assert((head + last)[head.len() + k] == last[k]);
        }
        lemma_escape_free_tokens(tokens.drop_last());
        assert forall|i: int| 0 <= i < tokens.len() implies escape_free(
            #[trigger] tokens[i].text,
        ) by {
            if i < tokens.len() - 1 {
                assert(tokens.drop_last()[i] == tokens[i]);
            }
        }
    }
}

/// On a sink that does not colour, a run of tokens appends its text and
/// nothing else.
pub proof fn lemma_uncolored_run(state: WriterState, tokens: Seq<Token>)
    requires
        !state.colored,
    ensures
        state.emitted_all(tokens).bytes == state.bytes + encode_utf8(tokens_text(tokens)),
    decreases tokens.len(),
{
    if tokens.len() == 0 {
        assert(state.bytes + encode_utf8(tokens_text(tokens)) =~= state.bytes);
    } else {
        let before = state.emitted_all(tokens.drop_last());
        let last = tokens.last();
        lemma_uncolored_run(state, tokens.drop_last());
        lemma_uncolored_kept(state, tokens.drop_last());
        lemma_encoding_concat(tokens_text(tokens.drop_last()), last.text);
        assert(encode_utf8(last.text) =~= Seq::<u8>::empty() + encode_utf8(last.text));
        if last.text.len() == 0 {
            assert(tokens_text(tokens) =~= tokens_text(tokens.drop_last()));
        }
        assert(before.emitted(last).bytes =~= state.bytes + encode_utf8(tokens_text(tokens)));
    }
}

/// A run of tokens leaves the sink what it was: colouring or not.
pub proof fn lemma_uncolored_kept(state: WriterState, tokens: Seq<Token>)
    ensures
        state.emitted_all(tokens).colored == state.colored,
    decreases tokens.len(),
{
    if tokens.len() > 0 {
        lemma_uncolored_kept(state, tokens.drop_last());
    }
}

/// Taking the control sequences out of what a run of tokens appended leaves
/// the text of the run, provided no token holds an escape character and
/// what the sink held before was well delimited.
pub proof fn lemma_stripped_run(state: WriterState, tokens: Seq<Token>)
    requires
        well_delimited(state.bytes),
        escape_free(tokens_text(tokens)),
    ensures
        stripped(state.emitted_all(tokens).bytes) == stripped(state.bytes) + encode_utf8(
            tokens_text(tokens),
        ),
        well_delimited(state.emitted_all(tokens).bytes),
    decreases tokens.len(),
{
    if tokens.len() == 0 {
        assert(stripped(state.bytes) + encode_utf8(tokens_text(tokens)) =~= stripped(state.bytes));
    } else {
        let head = tokens.drop_last();
        let last = tokens.last();
        let before = state.emitted_all(head);
        let asked = before.with_kind(last.kind);
        lemma_escape_free_tokens(tokens);
        let head_text = tokens_text(head);
        assert forall|k: int| 0 <= k < head_text.len() implies head_text[k] != '\x1b' by {
            assert((head_text + last.text)[k] == head_text[k]);
        }
        lemma_stripped_run(state, head);
        lemma_encoding_concat(head_text, last.text);
        if last.text.len() == 0 {
            assert(tokens_text(tokens) =~= head_text);
        } else {
            let code = if asked.deferred() {
                control_code(asked.colored, asked.kind)
            } else {
                Seq::<u8>::empty()
            };
            let text = encode_utf8(last.text);
            assert(asked.appended(last.text) =~= code + text);
            lemma_stripped_control(asked.colored, asked.kind);
            lemma_escape_free_encoding(last.text);
            lemma_stripped_text(text);
            lemma_stripped_concat(code, text);
            lemma_stripped_concat(before.bytes, code + text);
            assert(stripped(code) + stripped(text) =~= text);
            assert(stripped(before.emitted(last).bytes) =~= stripped(state.bytes) + encode_utf8(
                tokens_text(tokens),
            ));
        }
    }
}

/// On a sink that does not colour, a line appends its plain text and nothing
/// else: the structure of a non-empty object or array, and any other line
/// byte for byte as it came, each with its newline.
pub proof fn lemma_uncolored_line(state: WriterState, document: Option<JsonModel>, line: Seq<char>)
    requires
        !state.colored,
    ensures
        state.emitted_all(line_tokens(document, line)).bytes == state.bytes + encode_utf8(
            line_text(document, line),
        ),
        !is_structured(document) ==> state.emitted_all(line_tokens(document, line)).bytes
            == state.bytes + encode_utf8(line) + seq![0x0au8],
{
    lemma_line_text(document, line);
    lemma_uncolored_run(state, line_tokens(document, line));
    if !is_structured(document) {
        lemma_encoding_newline(line);
    }
}

/// On any sink, taking the control sequences out of what a line appended
/// leaves the line's plain text, provided that text holds no escape
/// character and what the sink held before was well delimited.
pub proof fn lemma_stripped_line(state: WriterState, document: Option<JsonModel>, line: Seq<char>)
    requires
        well_delimited(state.bytes),
        escape_free(line_text(document, line)),
    ensures
        stripped(state.emitted_all(line_tokens(document, line)).bytes) == stripped(state.bytes)
            + encode_utf8(line_text(document, line)),
        well_delimited(state.emitted_all(line_tokens(document, line)).bytes),
        !is_structured(document) ==> stripped(
            state.emitted_all(line_tokens(document, line)).bytes,
        ) == stripped(state.bytes) + encode_utf8(line) + seq![0x0au8],
{
    lemma_line_text(document, line);
    lemma_stripped_run(state, line_tokens(document, line));
    if !is_structured(document) {
        lemma_encoding_newline(line);
        assert(stripped(state.bytes) + (encode_utf8(line) + seq![0x0au8]) =~= stripped(
            state.bytes,
        ) + encode_utf8(line) + seq![0x0au8]);
    }
}

/// A line and its newline are encoded as the line's bytes and the byte 10.
proof fn lemma_encoding_newline(line: Seq<char>)
    ensures
        encode_utf8(line + seq!['\n']) == encode_utf8(line) + seq![0x0au8],
{
    let newline = seq!['\n'];
    lemma_encoding_concat(line, newline);
    assert(newline.drop_first() =~= Seq::<char>::empty());
    assert(encode_utf8(newline.drop_first()) =~= Seq::<u8>::empty());
    let c = '\n' as u32;
    assert(c == 0x0au32);
    assert((c & 0x7F) as u8 == 0x0au8) by (bit_vector)
        requires
            c == 0x0au32,
    ;
    assert(encode_scalar(c) =~= seq![0x0au8]);
    assert(encode_utf8(newline) =~= seq![0x0au8]);
}

} // verus!
