//! Tokens produced by the tokenizer, together with their mathematical view.

use vstd::prelude::*;

verus! {

/// Tokens scanned out of the source text.
///
/// Equality derived on this type is structural (payloads included); the
/// parser matches tokens by shape alone through [`TokenKind`].
#[derive(Clone, Debug, PartialEq)]
pub enum Token {
    /// Keyword `var`.
    Variable,
    /// Keyword `func`.
    Function,
    /// Keyword `return`.
    Return,
    /// Identifiers like `var_1` or `add_num`.
    Identifier(String),
    /// Numeric literals like `0` or `47`.
    Number(isize),
    /// String literals enclosed by double quotes, for example `"Hello"`.
    String(String),
    /// Symbol `,`.
    Comma,
    /// Symbol `=`.
    Assign,
    /// Symbol `(`.
    LeftRoundBracket,
    /// Symbol `)`.
    RightRoundBracket,
    /// Symbol `{`.
    LeftCurlyBracket,
    /// Symbol `}`.
    RightCurlyBracket,
    /// Symbol `:`.
    VariableTypeIndicator,
    /// Symbol `->`.
    ReturnTypeIndicator,
    /// Symbol `==`.
    Equal,
    /// Symbol `!=`.
    NotEqual,
    /// Symbol `+`.
    Add,
    /// Symbol `-`.
    Minus,
    /// Symbol `*`.
    Times,
    /// Symbol `/`.
    Divide,
    /// Symbol `;`.
    EndOfStatement,
    /// End of program.
    EndOfProgram,
}

/// Mathematical value of a [`Token`]: payloads are character sequences and
/// unbounded integers, so contracts can speak of token contents directly.
pub enum TokenView {
    Variable,
    Function,
    Return,
    Identifier(Seq<char>),
    Number(int),
    String(Seq<char>),
    Comma,
    Assign,
    LeftRoundBracket,
    RightRoundBracket,
    LeftCurlyBracket,
    RightCurlyBracket,
    VariableTypeIndicator,
    ReturnTypeIndicator,
    Equal,
    NotEqual,
    Add,
    Minus,
    Times,
    Divide,
    EndOfStatement,
    EndOfProgram,
}

impl View for Token {
    type V = TokenView;

    open spec fn view(&self) -> TokenView {
        match self {
            Token::Variable => TokenView::Variable,
            Token::Function => TokenView::Function,
            Token::Return => TokenView::Return,
            Token::Identifier(text) => TokenView::Identifier(text@),
            Token::Number(num) => TokenView::Number(*num as int),
            Token::String(text) => TokenView::String(text@),
            Token::Comma => TokenView::Comma,
            Token::Assign => TokenView::Assign,
            Token::LeftRoundBracket => TokenView::LeftRoundBracket,
            Token::RightRoundBracket => TokenView::RightRoundBracket,
            Token::LeftCurlyBracket => TokenView::LeftCurlyBracket,
            Token::RightCurlyBracket => TokenView::RightCurlyBracket,
            Token::VariableTypeIndicator => TokenView::VariableTypeIndicator,
            Token::ReturnTypeIndicator => TokenView::ReturnTypeIndicator,
            Token::Equal => TokenView::Equal,
            Token::NotEqual => TokenView::NotEqual,
            Token::Add => TokenView::Add,
            Token::Minus => TokenView::Minus,
            Token::Times => TokenView::Times,
            Token::Divide => TokenView::Divide,
            Token::EndOfStatement => TokenView::EndOfStatement,
            Token::EndOfProgram => TokenView::EndOfProgram,
        }
    }
}

impl DeepView for Token {
    type V = TokenView;

    open spec fn deep_view(&self) -> TokenView {
        self.view()
    }
}

/// The shape of a token, without its payload. The parser dispatches on the
/// kind of the next token, never on the payload.
#[derive(Clone, Copy, Debug, PartialEq, Eq, Structural)]
pub enum TokenKind {
    Variable,
    Function,
    Return,
    Identifier,
    Number,
    String,
    Comma,
    Assign,
    LeftRoundBracket,
    RightRoundBracket,
    LeftCurlyBracket,
    RightCurlyBracket,
    VariableTypeIndicator,
    ReturnTypeIndicator,
    Equal,
    NotEqual,
    Add,
    Minus,
    Times,
    Divide,
    EndOfStatement,
    EndOfProgram,
}

impl TokenView {
    /// The shape of a token value.
    pub open spec fn kind(self) -> TokenKind {
        match self {
            TokenView::Variable => TokenKind::Variable,
            TokenView::Function => TokenKind::Function,
            TokenView::Return => TokenKind::Return,
            TokenView::Identifier(_) => TokenKind::Identifier,
            TokenView::Number(_) => TokenKind::Number,
            TokenView::String(_) => TokenKind::String,
            TokenView::Comma => TokenKind::Comma,
            TokenView::Assign => TokenKind::Assign,
            TokenView::LeftRoundBracket => TokenKind::LeftRoundBracket,
            TokenView::RightRoundBracket => TokenKind::RightRoundBracket,
            TokenView::LeftCurlyBracket => TokenKind::LeftCurlyBracket,
            TokenView::RightCurlyBracket => TokenKind::RightCurlyBracket,
            TokenView::VariableTypeIndicator => TokenKind::VariableTypeIndicator,
            TokenView::ReturnTypeIndicator => TokenKind::ReturnTypeIndicator,
            TokenView::Equal => TokenKind::Equal,
            TokenView::NotEqual => TokenKind::NotEqual,
            TokenView::Add => TokenKind::Add,
            TokenView::Minus => TokenKind::Minus,
            TokenView::Times => TokenKind::Times,
            TokenView::Divide => TokenKind::Divide,
            TokenView::EndOfStatement => TokenKind::EndOfStatement,
            TokenView::EndOfProgram => TokenKind::EndOfProgram,
        }
    }
}

impl Token {
    /// The shape of this token, payload disregarded.
    pub fn kind(&self) -> (k: TokenKind)
        ensures
            k == self@.kind(),
    {
        match self {
            Token::Variable => TokenKind::Variable,
            Token::Function => TokenKind::Function,
            Token::Return => TokenKind::Return,
            Token::Identifier(_) => TokenKind::Identifier,
            Token::Number(_) => TokenKind::Number,
            Token::String(_) => TokenKind::String,
            Token::Comma => TokenKind::Comma,
            Token::Assign => TokenKind::Assign,
            Token::LeftRoundBracket => TokenKind::LeftRoundBracket,
            Token::RightRoundBracket => TokenKind::RightRoundBracket,
            Token::LeftCurlyBracket => TokenKind::LeftCurlyBracket,
            Token::RightCurlyBracket => TokenKind::RightCurlyBracket,
            Token::VariableTypeIndicator => TokenKind::VariableTypeIndicator,
            Token::ReturnTypeIndicator => TokenKind::ReturnTypeIndicator,
            Token::Equal => TokenKind::Equal,
            Token::NotEqual => TokenKind::NotEqual,
            Token::Add => TokenKind::Add,
            Token::Minus => TokenKind::Minus,
            Token::Times => TokenKind::Times,
            Token::Divide => TokenKind::Divide,
            Token::EndOfStatement => TokenKind::EndOfStatement,
            Token::EndOfProgram => TokenKind::EndOfProgram,
        }
    }
}

} // verus!
