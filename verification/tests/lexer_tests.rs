use fang_frontend::frontend::{Frontend, FrontendError};
use fang_frontend::lexer::{escape_string, Tokenizer, TokenizerError};
use fang_frontend::parser::ParseError;
use fang_frontend::stream::Stream;
use fang_frontend::token::{Token, TokenKind};

fn scan_tokens(text: &str) -> Vec<Token> {
    let mut tokenizer = Tokenizer::new();

    tokenizer.scan(text).unwrap();

    let mut stream = tokenizer.extract();
    let mut tokens: Vec<Token> = Vec::new();

    while let Some(token) = stream.consume() {
        tokens.push(token);
    }

    tokens
}

fn scan_error(text: &str) -> TokenizerError {
    let mut tokenizer = Tokenizer::new();

    tokenizer.scan(text).unwrap_err()
}

#[test]
fn token_sequence_ends_with_one_end_of_program() {
    let tokens = scan_tokens("var x;");
    assert_eq!(
        tokens,
        vec![
            Token::Variable,
            Token::Identifier(String::from("x")),
            Token::EndOfStatement,
            Token::EndOfProgram,
        ]
    );
    let end_count = tokens
        .iter()
        .filter(|t| matches!(t, Token::EndOfProgram))
        .count();
    assert_eq!(end_count, 1);

    let empty = scan_tokens("");
    assert_eq!(empty, vec![Token::EndOfProgram]);
}

#[test]
fn greedy_double_equal_never_decomposes() {
    assert_eq!(
        scan_tokens("a==b"),
        vec![
            Token::Identifier(String::from("a")),
            Token::Equal,
            Token::Identifier(String::from("b")),
            Token::EndOfProgram,
        ]
    );
}

#[test]
fn greedy_not_equal_never_decomposes() {
    assert_eq!(
        scan_tokens("a!=b"),
        vec![
            Token::Identifier(String::from("a")),
            Token::NotEqual,
            Token::Identifier(String::from("b")),
            Token::EndOfProgram,
        ]
    );
}

#[test]
fn greedy_arrow_never_decomposes() {
    assert_eq!(
        scan_tokens("->2"),
        vec![
            Token::ReturnTypeIndicator,
            Token::Number(2),
            Token::EndOfProgram,
        ]
    );
}

#[test]
fn triple_equal_is_equal_then_assign() {
    assert_eq!(
        scan_tokens("==="),
        vec![Token::Equal, Token::Assign, Token::EndOfProgram]
    );
}

#[test]
fn keywords_are_never_identifiers() {
    assert_eq!(
        scan_tokens("var func return"),
        vec![
            Token::Variable,
            Token::Function,
            Token::Return,
            Token::EndOfProgram,
        ]
    );
    assert_eq!(
        scan_tokens("varx funcs returning"),
        vec![
            Token::Identifier(String::from("varx")),
            Token::Identifier(String::from("funcs")),
            Token::Identifier(String::from("returning")),
            Token::EndOfProgram,
        ]
    );
}

#[test]
fn keyword_recognized_at_end_of_input() {
    assert_eq!(scan_tokens("var"), vec![Token::Variable, Token::EndOfProgram]);
}

#[test]
fn pending_lexemes_flush_at_end_of_input() {
    assert_eq!(
        scan_tokens("x="),
        vec![
            Token::Identifier(String::from("x")),
            Token::Assign,
            Token::EndOfProgram,
        ]
    );
    assert_eq!(
        scan_tokens("x-"),
        vec![
            Token::Identifier(String::from("x")),
            Token::Minus,
            Token::EndOfProgram,
        ]
    );
    assert_eq!(
        scan_tokens("x/"),
        vec![
            Token::Identifier(String::from("x")),
            Token::Divide,
            Token::EndOfProgram,
        ]
    );
    assert_eq!(scan_tokens("47"), vec![Token::Number(47), Token::EndOfProgram]);
}

#[test]
fn unterminated_string_yields_buffered_text() {
    assert_eq!(
        scan_tokens("var s = \"abc"),
        vec![
            Token::Variable,
            Token::Identifier(String::from("s")),
            Token::Assign,
            Token::String(String::from("abc")),
            Token::EndOfProgram,
        ]
    );
}

#[test]
fn string_contents_are_copied_verbatim() {
    assert_eq!(
        scan_tokens("\"a\\r\\nb\""),
        vec![
            Token::String(String::from("a\\r\\nb")),
            Token::EndOfProgram,
        ]
    );
}

#[test]
fn comments_produce_no_tokens() {
    assert_eq!(
        scan_tokens("a // note\nb"),
        vec![
            Token::Identifier(String::from("a")),
            Token::Identifier(String::from("b")),
            Token::EndOfProgram,
        ]
    );
    assert_eq!(
        scan_tokens("a /* note */ b"),
        vec![
            Token::Identifier(String::from("a")),
            Token::Identifier(String::from("b")),
            Token::EndOfProgram,
        ]
    );
    assert_eq!(
        scan_tokens("a // to the end"),
        vec![Token::Identifier(String::from("a")), Token::EndOfProgram]
    );
}

#[test]
fn multi_line_comment_with_doubled_star_closes() {
    assert_eq!(
        scan_tokens("/**/a"),
        vec![Token::Identifier(String::from("a")), Token::EndOfProgram]
    );
    assert_eq!(
        scan_tokens("/* note **/ b"),
        vec![Token::Identifier(String::from("b")), Token::EndOfProgram]
    );
}

#[test]
fn exclamation_without_equal_is_lexical_error() {
    assert_eq!(scan_error("a ! b;"), TokenizerError::InvalidByte);
    assert_eq!(scan_error("!"), TokenizerError::InvalidByte);
}

#[test]
fn invalid_byte_is_lexical_error() {
    assert_eq!(scan_error("a # b;"), TokenizerError::InvalidByte);
    assert_eq!(scan_error("\"a\u{1}b\""), TokenizerError::InvalidByte);
}

#[test]
fn oversized_number_is_lexical_error() {
    assert_eq!(
        scan_error("var x = 99999999999999999999;"),
        TokenizerError::NumberOverflow
    );
}

#[test]
fn failed_scan_resets_the_tokenizer() {
    let mut tokenizer = Tokenizer::new();
    assert_eq!(tokenizer.scan("a ! b"), Err(TokenizerError::InvalidByte));
    assert_eq!(tokenizer.scan("x;"), Ok(()));

    let mut stream = tokenizer.extract();
    let mut tokens: Vec<Token> = Vec::new();
    while let Some(token) = stream.consume() {
        tokens.push(token);
    }
    assert_eq!(
        tokens,
        vec![
            Token::Identifier(String::from("x")),
            Token::EndOfStatement,
            Token::EndOfProgram,
        ]
    );
}

#[test]
fn extract_resets_the_tokenizer() {
    let mut tokenizer = Tokenizer::new();
    tokenizer.scan("a;").unwrap();
    tokenizer.extract();

    tokenizer.scan("b;").unwrap();
    let mut stream = tokenizer.extract();
    let mut tokens: Vec<Token> = Vec::new();
    while let Some(token) = stream.consume() {
        tokens.push(token);
    }
    assert_eq!(
        tokens,
        vec![
            Token::Identifier(String::from("b")),
            Token::EndOfStatement,
            Token::EndOfProgram,
        ]
    );
}

#[test]
fn stream_peek_consume_and_match() {
    let mut stream = Stream::new(vec![
        Token::Identifier(String::from("abc")),
        Token::Number(7),
        Token::EndOfProgram,
    ]);

    assert!(stream.match_token(Token::Identifier(String::new())));
    assert!(!stream.match_token(Token::Number(0)));
    assert_eq!(stream.peek(), Some(&Token::Identifier(String::from("abc"))));

    assert_eq!(stream.consume(), Some(Token::Identifier(String::from("abc"))));
    assert!(stream.match_token(Token::Number(999)));
    assert_eq!(stream.consume(), Some(Token::Number(7)));

    assert_eq!(stream.peek(), Some(&Token::EndOfProgram));
    assert_eq!(stream.peek(), Some(&Token::EndOfProgram));
    assert_eq!(stream.consume(), Some(Token::EndOfProgram));

    assert_eq!(stream.peek(), None);
    assert_eq!(stream.consume(), None);
    assert!(!stream.match_token(Token::EndOfProgram));
}

#[test]
fn token_kind_disregards_payload() {
    assert_eq!(
        Token::Identifier(String::from("a")).kind(),
        Token::Identifier(String::from("b")).kind()
    );
    assert_eq!(Token::Number(1).kind(), Token::Number(2).kind());
    assert_eq!(Token::Variable.kind(), TokenKind::Variable);
    assert_ne!(Token::Assign.kind(), Token::Equal.kind());
}

#[test]
fn escape_string_escapes_control_bytes() {
    assert_eq!(escape_string("abc"), String::from("abc"));
    assert_eq!(escape_string("a\r\n\"b"), String::from("a\\r\\n\\\"b"));
    assert_eq!(escape_string("\u{1}"), String::from("\\x01"));
    assert_eq!(escape_string("\u{e9}"), String::from("\\xC3\\xA9"));
}

#[test]
fn frontend_builds_a_program() {
    let frontend = Frontend::new();
    let program = frontend.process_string("var x = 1;").unwrap();
    assert_eq!(program.statements.len(), 1);
}

#[test]
fn frontend_reports_lexical_error() {
    let frontend = Frontend::new();
    assert_eq!(
        frontend.process_string("a ! b;").unwrap_err(),
        FrontendError::Lexical(TokenizerError::InvalidByte)
    );
}

#[test]
fn frontend_reports_syntax_error() {
    let frontend = Frontend::new();
    assert_eq!(
        frontend.process_string("var = 1;").unwrap_err(),
        FrontendError::Syntax(ParseError::ExpectedIdentifier)
    );
}

#[test]
fn number_literals_accumulate_decimal_digits() {
    assert_eq!(scan_tokens("0"), vec![Token::Number(0), Token::EndOfProgram]);
    assert_eq!(scan_tokens("0047"), vec![Token::Number(47), Token::EndOfProgram]);
    assert_eq!(
        scan_tokens("9223372036854775807"),
        vec![Token::Number(9223372036854775807), Token::EndOfProgram]
    );
    assert_eq!(
        scan_error("9223372036854775808"),
        TokenizerError::NumberOverflow
    );
}
