//! An immutable token sequence behind a forward cursor, with peek, consume
//! and match-by-shape operations giving one token of lookahead.

use vstd::prelude::*;

use crate::token::{Token, TokenKind, TokenView};

verus! {

/// Mathematical value of a [`Stream`]: the token sequence and the cursor.
pub struct StreamView {
    pub tokens: Seq<TokenView>,
    pub cursor: int,
}

/// A token sequence coupled with a forward, never-decreasing cursor.
#[derive(Debug)]
pub struct Stream {
    tokens: Vec<Token>,
    current: usize,
}

impl View for Stream {
    type V = StreamView;

    closed spec fn view(&self) -> StreamView {
        StreamView { tokens: self.tokens.deep_view(), cursor: self.current as int }
    }
}

/// Clones one token; the copy has the same mathematical value.
fn clone_token(token: &Token) -> (r: Token)
    ensures
        r@ == token@,
{
    match token {
        Token::Variable => Token::Variable,
        Token::Function => Token::Function,
        Token::Return => Token::Return,
        Token::Identifier(text) => Token::Identifier(text.clone()),
        Token::Number(num) => Token::Number(*num),
        Token::String(text) => Token::String(text.clone()),
        Token::Comma => Token::Comma,
        Token::Assign => Token::Assign,
        Token::LeftRoundBracket => Token::LeftRoundBracket,
        Token::RightRoundBracket => Token::RightRoundBracket,
        Token::LeftCurlyBracket => Token::LeftCurlyBracket,
        Token::RightCurlyBracket => Token::RightCurlyBracket,
        Token::VariableTypeIndicator => Token::VariableTypeIndicator,
        Token::ReturnTypeIndicator => Token::ReturnTypeIndicator,
        Token::Equal => Token::Equal,
        Token::NotEqual => Token::NotEqual,
        Token::Add => Token::Add,
        Token::Minus => Token::Minus,
        Token::Times => Token::Times,
        Token::Divide => Token::Divide,
        Token::EndOfStatement => Token::EndOfStatement,
        Token::EndOfProgram => Token::EndOfProgram,
    }
}

impl Stream {
    /// The cursor never runs past the end of the token sequence.
    #[verifier::type_invariant]
    pub open spec fn wf(&self) -> bool {
        0 <= self@.cursor <= self@.tokens.len()
    }

    /// Wraps a token sequence; the cursor starts at the first token.
    pub fn new(tokens: Vec<Token>) -> (stream: Stream)
        ensures
            stream@.tokens == tokens.deep_view(),
            stream@.cursor == 0,
    {
        Stream { tokens, current: 0 }
    }

    /// Returns the token at the cursor and advances past it, or `None` once
    /// the cursor has moved past the end of the sequence.
    pub fn consume(&mut self) -> (r: Option<Token>)
        ensures
            0 <= old(self)@.cursor <= old(self)@.tokens.len(),
            final(self)@.tokens == old(self)@.tokens,
            old(self)@.cursor < old(self)@.tokens.len() ==> {
                &&& final(self)@.cursor == old(self)@.cursor + 1
                &&& r matches Some(t) && t@ == old(self)@.tokens[old(self)@.cursor]
            },
            old(self)@.cursor >= old(self)@.tokens.len() ==> {
                &&& final(self)@.cursor == old(self)@.cursor
                &&& r is None
            },
    {
        proof {
            use_type_invariant(&*self);
        }
        if self.current < self.tokens.len() {
            let token = clone_token(&self.tokens[self.current]);

            self.current = self.current + 1;

            Some(token)
        } else {
            None
        }
    }

    /// Returns a view of the token at the cursor without advancing, or
    /// `None` if the cursor is past the end of the sequence.
    pub fn peek(&self) -> (r: Option<&Token>)
        ensures
            0 <= self@.cursor <= self@.tokens.len(),
            match r {
                Some(t) => self@.cursor < self@.tokens.len() && t@ == self@.tokens[self@.cursor],
                None => self@.cursor >= self@.tokens.len(),
            },
    {
        proof {
            use_type_invariant(&*self);
        }
        if self.current < self.tokens.len() {
            Some(&self.tokens[self.current])
        } else {
            None
        }
    }

    /// True iff the token at the cursor has the same shape as `expected`;
    /// payloads are disregarded, and the cursor does not move.
    pub fn match_token(&mut self, expected: Token) -> (r: bool)
        ensures
            0 <= old(self)@.cursor <= old(self)@.tokens.len(),
            final(self)@ == old(self)@,
            r == (old(self)@.cursor < old(self)@.tokens.len()
                && old(self)@.tokens[old(self)@.cursor].kind() == expected@.kind()),
    {
        match self.peek() {
            Some(token) => token.kind() == expected.kind(),
            None => false,
        }
    }
}

} // verus!
