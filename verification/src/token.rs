//! Tokens: the spans of text that a rendering is made of, and what a writer
//! does with a run of them.

use vstd::prelude::*;

use crate::kind::TokenKind;
use crate::writer::WriterState;

verus! {

/// A span of output text together with its kind.
pub struct Token {
    pub kind: TokenKind,
    pub text: Seq<char>,
}

/// A span that is shown without colour.
pub open spec fn plain(text: Seq<char>) -> Token {
    Token { kind: TokenKind::Plain, text }
}

impl WriterState {
    /// The state after one token: its kind is asked for, then its text is
    /// written.
    pub open spec fn emitted(self, token: Token) -> WriterState {
        self.with_kind(token.kind).written(token.text)
    }

    /// The state after a run of tokens, taken from first to last.
    pub open spec fn emitted_all(self, tokens: Seq<Token>) -> WriterState
        decreases tokens.len(),
    {
        if tokens.len() == 0 {
            self
        } else {
            self.emitted_all(tokens.drop_last()).emitted(tokens.last())
        }
    }
}

/// A run of one token is that token.
pub proof fn lemma_emitted_one(state: WriterState, token: Token)
    ensures
        state.emitted_all(seq![token]) == state.emitted(token),
{
    let run = seq![token];
    assert(run.drop_last() =~= Seq::<Token>::empty());
    assert(state.emitted_all(run.drop_last()) == state);
    assert(run.last() == token);
}

/// Emitting two runs one after the other is emitting them joined.
pub proof fn lemma_emitted_concat(state: WriterState, first: Seq<Token>, second: Seq<Token>)
    ensures
        state.emitted_all(first + second) == state.emitted_all(first).emitted_all(second),
    decreases second.len(),
{
    if second.len() == 0 {
        assert(first + second =~= first);
    } else {
        assert((first + second).drop_last() =~= first + second.drop_last());
        assert((first + second).last() == second.last());
        lemma_emitted_concat(state, first, second.drop_last());
    }
}

/// Emitting a run and then one more token is emitting the run with the
/// token at its end.
pub proof fn lemma_emitted_push(state: WriterState, run: Seq<Token>, token: Token)
    ensures
        state.emitted_all(run + seq![token]) == state.emitted_all(run).emitted(token),
{
    lemma_emitted_concat(state, run, seq![token]);
    lemma_emitted_one(state.emitted_all(run), token);
}

} // verus!
