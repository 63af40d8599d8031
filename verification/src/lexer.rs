//! A byte-driven finite-state tokenizer. Each byte of the source text steps
//! a deterministic automaton; the automaton's mathematical model is
//! [`spec_step`], and every exec function here is proved to follow it.

use vstd::prelude::*;
use vstd::string::StringSliceAdditionalSpecFns;

use crate::stream::Stream;
use crate::token::{Token, TokenView};

verus! {

/// Byte values of the ASCII characters the scanner dispatches on.
pub const LOWER_A: u8 = 97;

pub const LOWER_Z: u8 = 122;

pub const UPPER_A: u8 = 65;

pub const UPPER_Z: u8 = 90;

pub const UNDERSCORE: u8 = 95;

pub const DIGIT_ZERO: u8 = 48;

pub const DIGIT_NINE: u8 = 57;

pub const SPACE: u8 = 32;

pub const CARRIAGE_RETURN: u8 = 13;

pub const LINE_FEED: u8 = 10;

pub const DOUBLE_QUOTE: u8 = 34;

pub const COMMA: u8 = 44;

pub const EQUALS_SIGN: u8 = 61;

pub const EXCLAMATION_MARK: u8 = 33;

pub const COLON: u8 = 58;

pub const PLUS_SIGN: u8 = 43;

pub const HYPHEN: u8 = 45;

pub const ASTERISK: u8 = 42;

pub const FORWARD_SLASH: u8 = 47;

pub const LEFT_ROUND: u8 = 40;

pub const RIGHT_ROUND: u8 = 41;

pub const LEFT_CURLY: u8 = 123;

pub const RIGHT_CURLY: u8 = 125;

pub const SEMICOLON: u8 = 59;

pub const GREATER_THAN: u8 = 62;

pub const PRINTABLE_MIN: u8 = 32;

pub const PRINTABLE_MAX: u8 = 126;

/// States of the tokenizer's finite-state machine.
#[derive(Debug)]
pub enum State {
    /// Between lexemes.
    Start,
    /// Have character `=`, deciding between `=` and `==`.
    HaveCharEqual,
    /// Have character `!`, awaiting `=` to form `!=`.
    HaveCharExclamationMark,
    /// Have character `-`, deciding between `-` and `->`.
    HaveCharHyphen,
    /// Have character `/`, deciding among `/`, `//` and `/*`.
    HaveCharForwardSlash,
    /// Inside an identifier run.
    HaveIdentifierChar,
    /// Inside a decimal run.
    HaveNumericChar,
    /// Inside a string literal, after the opening quote.
    HaveStringStart,
    /// Inside a single-line comment, consuming through end of line.
    HaveSingleLineCommentStart,
    /// Inside a multi-line comment, searching for `*`.
    HaveMultiLineCommentStart,
    /// Saw `*` inside a multi-line comment; `/` closes the comment.
    HaveMultiLineCommentEndCharAsterisk,
}

/// Outcome of feeding one byte (or the end-of-input sentinel) to the
/// finite-state machine.
#[derive(Debug)]
pub enum FsmResult {
    /// Byte consumed, state advanced.
    Continue,
    /// Byte not consumed: a pending token was emitted and the same byte must
    /// be processed again in the new state.
    Again,
    /// Lexical error: the byte is not valid here.
    InvalidByte,
    /// Lexical error: a numeric literal exceeds the integer domain.
    NumberOverflow,
    /// End of input accepted.
    Done,
}

/// Lexical errors reported by [`Tokenizer::scan`].
#[derive(Clone, Copy, Debug, PartialEq, Eq, Structural)]
pub enum TokenizerError {
    /// A byte that no token, comment or literal may contain here.
    InvalidByte,
    /// A numeric literal exceeds the integer domain.
    NumberOverflow,
}

/// True for bytes that may begin an identifier: ASCII letters and `_`.
pub open spec fn spec_is_identifier_first_byte(byte: u8) -> bool {
    (LOWER_A <= byte && byte <= LOWER_Z) || (UPPER_A <= byte && byte <= UPPER_Z) || byte == UNDERSCORE
}

#[verifier::when_used_as_spec(spec_is_identifier_first_byte)]
pub fn is_identifier_first_byte(byte: u8) -> (r: bool)
    ensures
        r == spec_is_identifier_first_byte(byte),
{
    (LOWER_A <= byte && byte <= LOWER_Z) || (UPPER_A <= byte && byte <= UPPER_Z) || byte == UNDERSCORE
}

/// True for bytes that may continue an identifier: ASCII letters, digits
/// and `_`.
pub open spec fn spec_is_identifier_other_byte(byte: u8) -> bool {
    (LOWER_A <= byte && byte <= LOWER_Z) || (UPPER_A <= byte && byte <= UPPER_Z) || (DIGIT_ZERO <= byte && byte
        <= DIGIT_NINE) || byte == UNDERSCORE
}

#[verifier::when_used_as_spec(spec_is_identifier_other_byte)]
pub fn is_identifier_other_byte(byte: u8) -> (r: bool)
    ensures
        r == spec_is_identifier_other_byte(byte),
{
    (LOWER_A <= byte && byte <= LOWER_Z) || (UPPER_A <= byte && byte <= UPPER_Z) || (DIGIT_ZERO <= byte && byte
        <= DIGIT_NINE) || byte == UNDERSCORE
}

/// True for ASCII decimal digits.
pub open spec fn spec_is_number_byte(byte: u8) -> bool {
    DIGIT_ZERO <= byte && byte <= DIGIT_NINE
}

#[verifier::when_used_as_spec(spec_is_number_byte)]
pub fn is_number_byte(byte: u8) -> (r: bool)
    ensures
        r == spec_is_number_byte(byte),
{
    DIGIT_ZERO <= byte && byte <= DIGIT_NINE
}

/// True for the bytes that separate lexemes: space, CR and LF.
pub open spec fn spec_is_space_byte(byte: u8) -> bool {
    byte == SPACE || byte == CARRIAGE_RETURN || byte == LINE_FEED
}

#[verifier::when_used_as_spec(spec_is_space_byte)]
pub fn is_space_byte(byte: u8) -> (r: bool)
    ensures
        r == spec_is_space_byte(byte),
{
    byte == SPACE || byte == CARRIAGE_RETURN || byte == LINE_FEED
}

/// True for printable ASCII bytes, 0x20 through 0x7E.
pub open spec fn spec_is_ascii_printable_byte(byte: u8) -> bool {
    PRINTABLE_MIN <= byte && byte <= PRINTABLE_MAX
}

#[verifier::when_used_as_spec(spec_is_ascii_printable_byte)]
pub fn is_ascii_printable_byte(byte: u8) -> (r: bool)
    ensures
        r == spec_is_ascii_printable_byte(byte),
{
    PRINTABLE_MIN <= byte && byte <= PRINTABLE_MAX
}

/// The working registers of the finite-state machine: the state and the
/// three accumulators, but not the tokens emitted so far. Keeping the
/// emitted tokens out of the model makes it immediate that the machine's
/// behaviour never depends on them.
pub struct LexCore {
    pub state: State,
    pub identifier: Seq<char>,
    pub number: int,
    pub string: Seq<char>,
}

impl LexCore {
    /// The registers of a freshly created tokenizer.
    pub open spec fn init() -> LexCore {
        LexCore { state: State::Start, identifier: Seq::empty(), number: 0, string: Seq::empty() }
    }
}

/// Mathematical value of a [`Tokenizer`]: its registers and the tokens
/// accumulated so far.
pub struct TokenizerView {
    pub core: LexCore,
    pub tokens: Seq<TokenView>,
}

impl TokenizerView {
    /// The value of a freshly created tokenizer.
    pub open spec fn init() -> TokenizerView {
        TokenizerView { core: LexCore::init(), tokens: Seq::empty() }
    }
}

/// The token an identifier run turns into when it ends: one of the three
/// keywords if the text matches, an identifier otherwise.
pub open spec fn ident_token(text: Seq<char>) -> TokenView {
    if text == "var"@ {
        TokenView::Variable
    } else if text == "func"@ {
        TokenView::Function
    } else if text == "return"@ {
        TokenView::Return
    } else {
        TokenView::Identifier(text)
    }
}

/// True when `n` is representable as an `isize`.
pub open spec fn fits_isize(n: int) -> bool {
    isize::MIN as int <= n <= isize::MAX as int
}

/// One transition of the finite-state machine: from registers `c` on `byte`
/// (`None` is the end-of-input sentinel), the machine reports an
/// [`FsmResult`], moves to new registers, and emits a sequence of tokens
/// (empty or a singleton).
///
/// At end of input, pending lexemes flush: `=`, `-` and `/` as their
/// single-character tokens, identifier and number runs as their accumulated
/// token, an unterminated string literal as whatever was buffered; a lone
/// `!` is an error, and comments terminate silently.
pub open spec fn spec_step(c: LexCore, byte: Option<u8>) -> (FsmResult, LexCore, Seq<TokenView>) {
    match c.state {
        State::Start => match byte {
            Option::None => (FsmResult::Done, c, Seq::empty()),
            Option::Some(b) => {
                if is_identifier_first_byte(b) {
                    (
                        FsmResult::Continue,
                        LexCore { state: State::HaveIdentifierChar, identifier: seq![b as char], ..c },
                        Seq::empty(),
                    )
                } else if is_number_byte(b) {
                    (
                        FsmResult::Continue,
                        LexCore { state: State::HaveNumericChar, number: (b - DIGIT_ZERO) as int, ..c },
                        Seq::empty(),
                    )
                } else if b == DOUBLE_QUOTE {
                    (
                        FsmResult::Continue,
                        LexCore { state: State::HaveStringStart, string: Seq::empty(), ..c },
                        Seq::empty(),
                    )
                } else if b == COMMA {
                    (FsmResult::Continue, c, seq![TokenView::Comma])
                } else if b == EQUALS_SIGN {
                    (FsmResult::Continue, LexCore { state: State::HaveCharEqual, ..c }, Seq::empty())
                } else if b == EXCLAMATION_MARK {
                    (
                        FsmResult::Continue,
                        LexCore { state: State::HaveCharExclamationMark, ..c },
                        Seq::empty(),
                    )
                } else if b == COLON {
                    (FsmResult::Continue, c, seq![TokenView::VariableTypeIndicator])
                } else if b == PLUS_SIGN {
                    (FsmResult::Continue, c, seq![TokenView::Add])
                } else if b == HYPHEN {
                    (FsmResult::Continue, LexCore { state: State::HaveCharHyphen, ..c }, Seq::empty())
                } else if b == ASTERISK {
                    (FsmResult::Continue, c, seq![TokenView::Times])
                } else if b == FORWARD_SLASH {
                    (
                        FsmResult::Continue,
                        LexCore { state: State::HaveCharForwardSlash, ..c },
                        Seq::empty(),
                    )
                } else if b == LEFT_ROUND {
                    (FsmResult::Continue, c, seq![TokenView::LeftRoundBracket])
                } else if b == RIGHT_ROUND {
                    (FsmResult::Continue, c, seq![TokenView::RightRoundBracket])
                } else if b == LEFT_CURLY {
                    (FsmResult::Continue, c, seq![TokenView::LeftCurlyBracket])
                } else if b == RIGHT_CURLY {
                    (FsmResult::Continue, c, seq![TokenView::RightCurlyBracket])
                } else if b == SEMICOLON {
                    (FsmResult::Continue, c, seq![TokenView::EndOfStatement])
                } else if is_space_byte(b) {
                    (FsmResult::Continue, c, Seq::empty())
                } else {
                    (FsmResult::InvalidByte, c, Seq::empty())
                }
            },
        },
        State::HaveCharEqual => match byte {
            Option::None => (
                FsmResult::Done,
                LexCore { state: State::Start, ..c },
                seq![TokenView::Assign],
            ),
            Option::Some(b) => {
                if b == EQUALS_SIGN {
                    (FsmResult::Continue, LexCore { state: State::Start, ..c }, seq![TokenView::Equal])
                } else {
                    (FsmResult::Again, LexCore { state: State::Start, ..c }, seq![TokenView::Assign])
                }
            },
        },
        State::HaveCharExclamationMark => match byte {
            Option::None => (FsmResult::InvalidByte, c, Seq::empty()),
            Option::Some(b) => {
                if b == EQUALS_SIGN {
                    (
                        FsmResult::Continue,
                        LexCore { state: State::Start, ..c },
                        seq![TokenView::NotEqual],
                    )
                } else {
                    (FsmResult::InvalidByte, LexCore { state: State::Start, ..c }, Seq::empty())
                }
            },
        },
        State::HaveCharHyphen => match byte {
            Option::None => (FsmResult::Done, LexCore { state: State::Start, ..c }, seq![TokenView::Minus]),
            Option::Some(b) => {
                if b == GREATER_THAN {
                    (
                        FsmResult::Continue,
                        LexCore { state: State::Start, ..c },
                        seq![TokenView::ReturnTypeIndicator],
                    )
                } else {
                    (FsmResult::Again, LexCore { state: State::Start, ..c }, seq![TokenView::Minus])
                }
            },
        },
        State::HaveCharForwardSlash => match byte {
            Option::None => (FsmResult::Done, LexCore { state: State::Start, ..c }, seq![TokenView::Divide]),
            Option::Some(b) => {
                if b == FORWARD_SLASH {
                    (
                        FsmResult::Continue,
                        LexCore { state: State::HaveSingleLineCommentStart, ..c },
                        Seq::empty(),
                    )
                } else if b == ASTERISK {
                    (
                        FsmResult::Continue,
                        LexCore { state: State::HaveMultiLineCommentStart, ..c },
                        Seq::empty(),
                    )
                } else {
                    (FsmResult::Again, LexCore { state: State::Start, ..c }, seq![TokenView::Divide])
                }
            },
        },
        State::HaveIdentifierChar => match byte {
            Option::None => (
                FsmResult::Done,
                LexCore { state: State::Start, ..c },
                seq![ident_token(c.identifier)],
            ),
            Option::Some(b) => {
                if is_identifier_other_byte(b) {
                    (
                        FsmResult::Continue,
                        LexCore { identifier: c.identifier.push(b as char), ..c },
                        Seq::empty(),
                    )
                } else {
                    (
                        FsmResult::Again,
                        LexCore { state: State::Start, ..c },
                        seq![ident_token(c.identifier)],
                    )
                }
            },
        },
        State::HaveNumericChar => match byte {
            Option::None => (
                FsmResult::Done,
                LexCore { state: State::Start, ..c },
                seq![TokenView::Number(c.number)],
            ),
            Option::Some(b) => {
                if is_number_byte(b) {
                    if fits_isize(c.number * 10) && fits_isize(c.number * 10 + (b - DIGIT_ZERO)) {
                        (
                            FsmResult::Continue,
                            LexCore { number: c.number * 10 + (b - DIGIT_ZERO), ..c },
                            Seq::empty(),
                        )
                    } else {
                        (FsmResult::NumberOverflow, c, Seq::empty())
                    }
                } else {
                    (
                        FsmResult::Again,
                        LexCore { state: State::Start, ..c },
                        seq![TokenView::Number(c.number)],
                    )
                }
            },
        },
        State::HaveStringStart => match byte {
            Option::None => (
                FsmResult::Done,
                LexCore { state: State::Start, ..c },
                seq![TokenView::String(c.string)],
            ),
            Option::Some(b) => {
                if b == DOUBLE_QUOTE {
                    (
                        FsmResult::Continue,
                        LexCore { state: State::Start, ..c },
                        seq![TokenView::String(c.string)],
                    )
                } else if b == CARRIAGE_RETURN || b == LINE_FEED || is_ascii_printable_byte(b) {
                    (FsmResult::Continue, LexCore { string: c.string.push(b as char), ..c }, Seq::empty())
                } else {
                    (FsmResult::InvalidByte, c, Seq::empty())
                }
            },
        },
        State::HaveSingleLineCommentStart => match byte {
            Option::None => (FsmResult::Done, LexCore { state: State::Start, ..c }, Seq::empty()),
            Option::Some(b) => {
                if b == CARRIAGE_RETURN || b == LINE_FEED {
                    (FsmResult::Continue, LexCore { state: State::Start, ..c }, Seq::empty())
                } else {
                    (FsmResult::Continue, c, Seq::empty())
                }
            },
        },
        State::HaveMultiLineCommentStart => match byte {
            Option::None => (FsmResult::Done, LexCore { state: State::Start, ..c }, Seq::empty()),
            Option::Some(b) => {
                if b == ASTERISK {
                    (
                        FsmResult::Continue,
                        LexCore { state: State::HaveMultiLineCommentEndCharAsterisk, ..c },
                        Seq::empty(),
                    )
                } else {
                    (FsmResult::Continue, c, Seq::empty())
                }
            },
        },
        State::HaveMultiLineCommentEndCharAsterisk => match byte {
            Option::None => (FsmResult::Done, LexCore { state: State::Start, ..c }, Seq::empty()),
            Option::Some(b) => {
                if b == FORWARD_SLASH {
                    (FsmResult::Continue, LexCore { state: State::Start, ..c }, Seq::empty())
                } else if b == ASTERISK {
                    (FsmResult::Continue, c, Seq::empty())
                } else {
                    (
                        FsmResult::Continue,
                        LexCore { state: State::HaveMultiLineCommentStart, ..c },
                        Seq::empty(),
                    )
                }
            },
        },
    }
}

/// One driver round: step the machine, and when a pending token was emitted
/// on pushback (`Again`), process the same byte once more in the new state.
pub open spec fn spec_feed(c: LexCore, byte: Option<u8>) -> (FsmResult, LexCore, Seq<TokenView>) {
    let (r1, c1, emitted1) = spec_step(c, byte);
    if r1 == FsmResult::Again {
        let (r2, c2, emitted2) = spec_step(c1, byte);
        (r2, c2, emitted1 + emitted2)
    } else {
        (r1, c1, emitted1)
    }
}

/// Feeding all of `input`, byte by byte, without the end-of-input sentinel:
/// the final registers and every token emitted along the way, or the first
/// lexical error.
pub open spec fn spec_run(c: LexCore, input: Seq<u8>) -> Result<
    (LexCore, Seq<TokenView>),
    TokenizerError,
>
    decreases input.len(),
{
    if input.len() == 0 {
        Ok((c, Seq::empty()))
    } else {
        let (r, c1, emitted1) = spec_feed(c, Option::Some(input[0]));
        match r {
            FsmResult::Continue => match spec_run(c1, input.drop_first()) {
                Ok((c2, emitted2)) => Ok((c2, emitted1 + emitted2)),
                Err(e) => Err(e),
            },
            FsmResult::NumberOverflow => Err(TokenizerError::NumberOverflow),
            _ => Err(TokenizerError::InvalidByte),
        }
    }
}

/// Feeding all of `input` and then the end-of-input sentinel: the final
/// registers and every token emitted, or the first lexical error.
pub open spec fn spec_scan_from(c: LexCore, input: Seq<u8>) -> Result<
    (LexCore, Seq<TokenView>),
    TokenizerError,
> {
    match spec_run(c, input) {
        Ok((c1, emitted1)) => {
            let (r, c2, emitted2) = spec_feed(c1, Option::None);
            match r {
                FsmResult::Done => Ok((c2, emitted1 + emitted2)),
                FsmResult::NumberOverflow => Err(TokenizerError::NumberOverflow),
                _ => Err(TokenizerError::InvalidByte),
            }
        },
        Err(e) => Err(e),
    }
}

/// The token sequence of a source text: scan every byte from a fresh
/// tokenizer and append the end-of-program sentinel, or report the first
/// lexical error.
pub open spec fn spec_tokenize(input: Seq<u8>) -> Result<Seq<TokenView>, TokenizerError> {
    match spec_scan_from(LexCore::init(), input) {
        Ok((c, emitted)) => Ok(emitted.push(TokenView::EndOfProgram)),
        Err(e) => Err(e),
    }
}


/// The character for one hexadecimal digit, upper case.
pub open spec fn spec_hex_digit_char(nibble: u8) -> char {
    if nibble < 10 {
        ((DIGIT_ZERO + nibble) as u8) as char
    } else {
        ((UPPER_A + nibble - 10) as u8) as char
    }
}

/// The escaped form of one byte: CR, LF and `"` as two-character escapes,
/// printable bytes as themselves, anything else as a hexadecimal escape.
pub open spec fn spec_escape_byte(byte: u8) -> Seq<char> {
    if byte == CARRIAGE_RETURN {
        seq!['\\', 'r']
    } else if byte == LINE_FEED {
        seq!['\\', 'n']
    } else if byte == DOUBLE_QUOTE {
        seq!['\\', '"']
    } else if spec_is_ascii_printable_byte(byte) {
        seq![byte as char]
    } else {
        seq!['\\', 'x', spec_hex_digit_char(byte / 16), spec_hex_digit_char(byte % 16)]
    }
}

/// The escaped form of a byte sequence: each byte's escape, in order.
pub open spec fn spec_escape(bytes: Seq<u8>) -> Seq<char>
    decreases bytes.len(),
{
    if bytes.len() == 0 {
        Seq::empty()
    } else {
        spec_escape_byte(bytes[0]) + spec_escape(bytes.subrange(1, bytes.len() as int))
    }
}

/// Renders a string's bytes in source form: CR, LF and `"` become escape
/// sequences, unprintable bytes hexadecimal escapes.
pub fn escape_string(text: &str) -> (line: String)
    ensures
        line@ == spec_escape(text.spec_bytes()),
{
    let text_buf = text.as_bytes();
    let text_len = text_buf.len();
    let mut line = String::new();
    let mut index: usize = 0;

    proof {
        assert(text_buf@.skip(0) =~= text_buf@);
        assert(Seq::<char>::empty() + spec_escape(text_buf@) =~= spec_escape(text_buf@));
    }

    while index < text_len
        invariant
            text_len == text_buf@.len(),
            text_buf@ == text.spec_bytes(),
            0 <= index <= text_len,
            spec_escape(text_buf@) == line@ + spec_escape(text_buf@.skip(index as int)),
        decreases text_len - index,
    {
        let ghost prev = line@;
        let byte = text_buf[index];

        if byte == CARRIAGE_RETURN {
            push_char(&mut line, '\\');
            push_char(&mut line, 'r');
        } else if byte == LINE_FEED {
            push_char(&mut line, '\\');
            push_char(&mut line, 'n');
        } else if byte == DOUBLE_QUOTE {
            push_char(&mut line, '\\');
            push_char(&mut line, '"');
        } else if is_ascii_printable_byte(byte) {
            push_char(&mut line, byte as char);
        } else {
            push_char(&mut line, '\\');
            push_char(&mut line, 'x');
            push_char(&mut line, hex_digit_char(byte / 16));
            push_char(&mut line, hex_digit_char(byte % 16));
        }

        proof {
            assert(line@ =~= prev + spec_escape_byte(byte));
            assert(text_buf@.skip(index as int)[0] == text_buf@[index as int]);
            assert(text_buf@.skip(index as int).subrange(
                1,
                text_buf@.skip(index as int).len() as int,
            ) =~= text_buf@.skip(index as int + 1));
            assert(prev + (spec_escape_byte(byte) + spec_escape(text_buf@.skip(index as int + 1)))
                =~= (prev + spec_escape_byte(byte)) + spec_escape(text_buf@.skip(index as int + 1)));
        }
        index = index + 1;
    }

    proof {
        assert(text_buf@.skip(index as int) =~= Seq::<u8>::empty());
        assert(line@ + Seq::<char>::empty() =~= line@);
    }

    line
}

/// The character for one hexadecimal digit, upper case.
fn hex_digit_char(nibble: u8) -> (c: char)
    requires
        nibble < 16,
    ensures
        c == spec_hex_digit_char(nibble),
{
    if nibble < 10 {
        (DIGIT_ZERO + nibble) as char
    } else {
        (UPPER_A + nibble - 10) as char
    }
}

/// Relies on `String::push`: appends exactly one character.
#[verifier::external_body]
fn push_char(s: &mut String, c: char)
    ensures
        final(s)@ == old(s)@.push(c),
{
    s.push(c);
}

/// Appends one token; the vector's deep view gains exactly that token's
/// value.
fn push_token(tokens: &mut Vec<Token>, token: Token)
    ensures
        final(tokens).deep_view() == old(tokens).deep_view() + seq![token@],
{
    let ghost token_view = token@;
    tokens.push(token);
    proof {
        assert(tokens.deep_view() =~= old(tokens).deep_view() + seq![token_view]);
    }
}

/// Converts a source text into a token sequence, one byte at a time.
pub struct Tokenizer {
    state: State,
    tokens: Vec<Token>,
    identifier: String,
    number: isize,
    string: String,
}

impl View for Tokenizer {
    type V = TokenizerView;

    closed spec fn view(&self) -> TokenizerView {
        TokenizerView {
            core: LexCore {
                state: self.state,
                identifier: self.identifier@,
                number: self.number as int,
                string: self.string@,
            },
            tokens: self.tokens.deep_view(),
        }
    }
}

/// One transition of the machine on `byte` (`None` is the end-of-input
/// sentinel): reports the step's result, advances the registers, and appends
/// the emitted tokens, exactly as [`spec_step`] says.
fn fsm_proc(tokenizer: &mut Tokenizer, byte: Option<u8>) -> (r: FsmResult)
    ensures
        ({
            let (sr, c2, emitted) = spec_step(old(tokenizer)@.core, byte);
            &&& r == sr
            &&& final(tokenizer)@.core == c2
            &&& final(tokenizer)@.tokens == old(tokenizer)@.tokens + emitted
        }),
{
    proof {
        assert(old(tokenizer)@.tokens + Seq::<TokenView>::empty() =~= old(tokenizer)@.tokens);
    }
    match tokenizer.state {
        State::Start => {
            let byte = match byte {
                None => return FsmResult::Done,
                Some(byte) => byte,
            };

            if is_identifier_first_byte(byte) {
                tokenizer.identifier = String::new();
                push_char(&mut tokenizer.identifier, byte as char);

                tokenizer.state = State::HaveIdentifierChar;
                proof {
                    assert(tokenizer@.core.identifier =~= seq![byte as char]);
                }
            } else if is_number_byte(byte) {
                let value = byte - DIGIT_ZERO;

                tokenizer.number = value as isize;

                tokenizer.state = State::HaveNumericChar;
            } else if byte == DOUBLE_QUOTE {
                tokenizer.string = String::new();

                tokenizer.state = State::HaveStringStart;
            } else if byte == COMMA {
                push_token(&mut tokenizer.tokens, Token::Comma);
            } else if byte == EQUALS_SIGN {
                tokenizer.state = State::HaveCharEqual;
            } else if byte == EXCLAMATION_MARK {
                tokenizer.state = State::HaveCharExclamationMark;
            } else if byte == COLON {
                push_token(&mut tokenizer.tokens, Token::VariableTypeIndicator);
            } else if byte == PLUS_SIGN {
                push_token(&mut tokenizer.tokens, Token::Add);
            } else if byte == HYPHEN {
                tokenizer.state = State::HaveCharHyphen;
            } else if byte == ASTERISK {
                push_token(&mut tokenizer.tokens, Token::Times);
            } else if byte == FORWARD_SLASH {
                tokenizer.state = State::HaveCharForwardSlash;
            } else if byte == LEFT_ROUND {
                push_token(&mut tokenizer.tokens, Token::LeftRoundBracket);
            } else if byte == RIGHT_ROUND {
                push_token(&mut tokenizer.tokens, Token::RightRoundBracket);
            } else if byte == LEFT_CURLY {
                push_token(&mut tokenizer.tokens, Token::LeftCurlyBracket);
            } else if byte == RIGHT_CURLY {
                push_token(&mut tokenizer.tokens, Token::RightCurlyBracket);
            } else if byte == SEMICOLON {
                push_token(&mut tokenizer.tokens, Token::EndOfStatement);
            } else if is_space_byte(byte) {

            } else {
                return FsmResult::InvalidByte;
            }
        },

        State::HaveCharEqual => {
            let byte = match byte {
                None => {
                    push_token(&mut tokenizer.tokens, Token::Assign);
                    tokenizer.state = State::Start;

                    return FsmResult::Done;
                },
                Some(byte) => byte,
            };

            if byte == EQUALS_SIGN {
                push_token(&mut tokenizer.tokens, Token::Equal);

                tokenizer.state = State::Start;
            } else {
                push_token(&mut tokenizer.tokens, Token::Assign);

                tokenizer.state = State::Start;

                return FsmResult::Again;
            }
        },

        State::HaveCharExclamationMark => {
            let byte = match byte {
                None => return FsmResult::InvalidByte,
                Some(byte) => byte,
            };

            if byte == EQUALS_SIGN {
                push_token(&mut tokenizer.tokens, Token::NotEqual);

                tokenizer.state = State::Start;
            } else {
                tokenizer.state = State::Start;

                return FsmResult::InvalidByte;
            }
        },

        State::HaveCharHyphen => {
            let byte = match byte {
                None => {
                    push_token(&mut tokenizer.tokens, Token::Minus);
                    tokenizer.state = State::Start;

                    return FsmResult::Done;
                },
                Some(byte) => byte,
            };

            if byte == GREATER_THAN {
                push_token(&mut tokenizer.tokens, Token::ReturnTypeIndicator);

                tokenizer.state = State::Start;
            } else {
                push_token(&mut tokenizer.tokens, Token::Minus);

                tokenizer.state = State::Start;

                return FsmResult::Again;
            }
        },

        State::HaveIdentifierChar => {
            let byte = match byte {
                None => {
                    let token = Tokenizer::keyword_or_identifier(&tokenizer.identifier);
                    push_token(&mut tokenizer.tokens, token);
                    tokenizer.state = State::Start;

                    return FsmResult::Done;
                },
                Some(byte) => byte,
            };

            if is_identifier_other_byte(byte) {
                push_char(&mut tokenizer.identifier, byte as char);
            } else {
                let token = Tokenizer::keyword_or_identifier(&tokenizer.identifier);
                push_token(&mut tokenizer.tokens, token);

                tokenizer.state = State::Start;

                return FsmResult::Again;
            }
        },

        State::HaveNumericChar => {
            let byte = match byte {
                None => {
                    push_token(&mut tokenizer.tokens, Token::Number(tokenizer.number));
                    tokenizer.state = State::Start;

                    return FsmResult::Done;
                },
                Some(byte) => byte,
            };

            if is_number_byte(byte) {
                let value = byte - DIGIT_ZERO;

                let scaled = match tokenizer.number.checked_mul(10) {
                    Some(scaled) => scaled,
                    None => return FsmResult::NumberOverflow,
                };
                match scaled.checked_add(value as isize) {
                    Some(accumulated) => tokenizer.number = accumulated,
                    None => return FsmResult::NumberOverflow,
                }
            } else {
                push_token(&mut tokenizer.tokens, Token::Number(tokenizer.number));

                tokenizer.state = State::Start;

                return FsmResult::Again;
            }
        },

        State::HaveStringStart => {
            let byte = match byte {
                None => {
                    push_token(&mut tokenizer.tokens, Token::String(tokenizer.string.clone()));
                    tokenizer.state = State::Start;

                    return FsmResult::Done;
                },
                Some(byte) => byte,
            };

            if byte == DOUBLE_QUOTE {
                push_token(&mut tokenizer.tokens, Token::String(tokenizer.string.clone()));

                tokenizer.state = State::Start;
            } else if byte == CARRIAGE_RETURN || byte == LINE_FEED || is_ascii_printable_byte(byte) {
                push_char(&mut tokenizer.string, byte as char);
            } else {
                return FsmResult::InvalidByte;
            }
        },

        State::HaveCharForwardSlash => {
            let byte = match byte {
                None => {
                    push_token(&mut tokenizer.tokens, Token::Divide);
                    tokenizer.state = State::Start;

                    return FsmResult::Done;
                },
                Some(byte) => byte,
            };

            if byte == FORWARD_SLASH {
                tokenizer.state = State::HaveSingleLineCommentStart;
            } else if byte == ASTERISK {
                tokenizer.state = State::HaveMultiLineCommentStart;
            } else {
                push_token(&mut tokenizer.tokens, Token::Divide);

                tokenizer.state = State::Start;

                return FsmResult::Again;
            }
        },

        State::HaveSingleLineCommentStart => {
            let byte = match byte {
                None => {
                    tokenizer.state = State::Start;
                    return FsmResult::Done;
                },
                Some(byte) => byte,
            };

            if byte == CARRIAGE_RETURN || byte == LINE_FEED {
                tokenizer.state = State::Start;
            }
        },

        State::HaveMultiLineCommentStart => {
            let byte = match byte {
                None => {
                    tokenizer.state = State::Start;
                    return FsmResult::Done;
                },
                Some(byte) => byte,
            };

            if byte == ASTERISK {
                tokenizer.state = State::HaveMultiLineCommentEndCharAsterisk;
            }
        },

        State::HaveMultiLineCommentEndCharAsterisk => {
            let byte = match byte {
                None => {
                    tokenizer.state = State::Start;
                    return FsmResult::Done;
                },
                Some(byte) => byte,
            };

            if byte == FORWARD_SLASH {
                tokenizer.state = State::Start;
            } else if byte == ASTERISK {

            } else {
                tokenizer.state = State::HaveMultiLineCommentStart;
            }
        },
    }

    FsmResult::Continue
}

impl Tokenizer {
    /// Creates a tokenizer in its initial state, with no tokens accumulated.
    pub fn new() -> (tokenizer: Tokenizer)
        ensures
            tokenizer@ == TokenizerView::init(),
    {
        let tokenizer = Tokenizer {
            state: State::Start,
            tokens: Vec::new(),
            identifier: String::new(),
            number: 0,
            string: String::new(),
        };
        proof {
            assert(tokenizer@.tokens =~= Seq::<TokenView>::empty());
            assert(tokenizer@ == TokenizerView::init());
        }
        tokenizer
    }

    /// The token an ended identifier run stands for: a keyword where the
    /// text matches, an identifier otherwise.
    fn keyword_or_identifier(text: &String) -> (token: Token)
        ensures
            token@ == ident_token(text@),
    {
        if *text == "var".to_owned() {
            Token::Variable
        } else if *text == "func".to_owned() {
            Token::Function
        } else if *text == "return".to_owned() {
            Token::Return
        } else {
            Token::Identifier(text.clone())
        }
    }

    /// One driver round: step the machine and, on pushback, process the same
    /// byte once more in the new state, exactly as [`spec_feed`] says.
    fn feed(&mut self, byte: Option<u8>) -> (r: FsmResult)
        ensures
            ({
                let (sr, c2, emitted) = spec_feed(old(self)@.core, byte);
                &&& r == sr
                &&& final(self)@.core == c2
                &&& final(self)@.tokens == old(self)@.tokens + emitted
            }),
    {
        let first = fsm_proc(self, byte);

        match first {
            FsmResult::Again => {
                let second = fsm_proc(self, byte);
                proof {
                    let (r1, c1, emitted1) = spec_step(old(self)@.core, byte);
                    let (r2, c2, emitted2) = spec_step(c1, byte);
                    assert(old(self)@.tokens + emitted1 + emitted2 =~= old(self)@.tokens + (
                    emitted1 + emitted2));
                }
                second
            },
            _ => first,
        }
    }

    /// Consumes the whole source text in one call, feeding each byte and
    /// then the end-of-input sentinel, and appends the end-of-program token,
    /// exactly as [`spec_scan_from`] says. On a lexical error, scanning
    /// halts at the offending byte and the tokenizer is reset to its initial
    /// state.
    pub fn scan(&mut self, text: &str) -> (r: Result<(), TokenizerError>)
        ensures
            match spec_scan_from(old(self)@.core, text.spec_bytes()) {
                Ok((c2, emitted)) => {
                    &&& r == Ok::<(), TokenizerError>(())
                    &&& final(self)@.core == c2
                    &&& final(self)@.tokens == old(self)@.tokens + emitted.push(
                        TokenView::EndOfProgram,
                    )
                },
                Err(e) => {
                    &&& r == Err::<(), TokenizerError>(e)
                    &&& final(self)@ == TokenizerView::init()
                },
            },
    {
        let text_buf = text.as_bytes();
        let text_len = text_buf.len();
        let mut index: usize = 0;

        proof {
            assert(text_buf@.skip(0) =~= text_buf@);
            assert(self@.tokens.skip(old(self)@.tokens.len() as int) =~= Seq::<TokenView>::empty());
            assert(old(self)@.tokens =~= self@.tokens.take(old(self)@.tokens.len() as int));
            match spec_run(self@.core, text_buf@) {
                Ok((c2, emitted)) => {
                    assert(Seq::<TokenView>::empty() + emitted =~= emitted);
                },
                Err(_) => {},
            }
        }

        while index < text_len
            invariant
                text_len == text_buf@.len(),
                text_buf@ == text.spec_bytes(),
                0 <= index <= text_len,
                old(self)@.tokens.len() <= self@.tokens.len(),
                old(self)@.tokens == self@.tokens.take(old(self)@.tokens.len() as int),
                spec_run(old(self)@.core, text_buf@) == run_prepend(
                    self@.tokens.skip(old(self)@.tokens.len() as int),
                    spec_run(self@.core, text_buf@.skip(index as int)),
                ),
            decreases text_len - index,
        {
            let ghost pre = self@;
            let byte = text_buf[index];
            proof {
                assert(text_buf@.skip(index as int)[0] == text_buf@[index as int]);
                assert(text_buf@.skip(index as int).drop_first() =~= text_buf@.skip(
                    index as int + 1,
                ));
            }
            match self.feed(Some(byte)) {
                FsmResult::Continue => {},
                FsmResult::NumberOverflow => {
                    self.reset();
                    return Err(TokenizerError::NumberOverflow);
                },
                _ => {
                    self.reset();
                    return Err(TokenizerError::InvalidByte);
                },
            }
            index = index + 1;
            proof {
                let (sr, c2, emitted) = spec_feed(pre.core, Some(byte));
                assert(self@.tokens.skip(old(self)@.tokens.len() as int) =~= pre.tokens.skip(
                    old(self)@.tokens.len() as int,
                ) + emitted);
                assert(old(self)@.tokens =~= self@.tokens.take(old(self)@.tokens.len() as int));
                lemma_run_prepend_assoc(
                    pre.tokens.skip(old(self)@.tokens.len() as int),
                    emitted,
                    spec_run(self@.core, text_buf@.skip(index as int)),
                );
            }
        }

        proof {
            assert(text_buf@.skip(index as int) =~= Seq::<u8>::empty());
        }
        let ghost pre = self@;
        match self.feed(None) {
            FsmResult::Done => {},
            FsmResult::NumberOverflow => {
                self.reset();
                return Err(TokenizerError::NumberOverflow);
            },
            _ => {
                self.reset();
                return Err(TokenizerError::InvalidByte);
            },
        }

        push_token(&mut self.tokens, Token::EndOfProgram);
        proof {
            let (sr, c2, emitted) = spec_feed(pre.core, None);
            assert(self@.tokens =~= old(self)@.tokens + (pre.tokens.skip(
                old(self)@.tokens.len() as int,
            ) + emitted).push(TokenView::EndOfProgram));
        }
        Ok(())
    }

    /// Puts the tokenizer back in its initial state, discarding the
    /// accumulated tokens and buffers.
    fn reset(&mut self)
        ensures
            final(self)@ == TokenizerView::init(),
    {
        self.state = State::Start;
        self.tokens = Vec::new();
        self.identifier = String::new();
        self.number = 0;
        self.string = String::new();
        proof {
            assert(self@.tokens =~= Seq::<TokenView>::empty());
            assert(self@ == TokenizerView::init());
        }
    }

    /// Surrenders the accumulated tokens as a fresh stream and resets the
    /// tokenizer for reuse.
    pub fn extract(&mut self) -> (stream: Stream)
        ensures
            stream@.tokens == old(self)@.tokens,
            stream@.cursor == 0,
            final(self)@ == TokenizerView::init(),
    {
        let mut tokens: Vec<Token> = Vec::new();
        core::mem::swap(&mut self.tokens, &mut tokens);

        self.state = State::Start;
        self.identifier = String::new();
        self.number = 0;
        self.string = String::new();
        proof {
            assert(self@.tokens =~= Seq::<TokenView>::empty());
            assert(self@ == TokenizerView::init());
        }

        Stream::new(tokens)
    }
}

/// Prefixes already-emitted tokens onto the emissions of a later run.
pub open spec fn run_prepend(
    emitted: Seq<TokenView>,
    r: Result<(LexCore, Seq<TokenView>), TokenizerError>,
) -> Result<(LexCore, Seq<TokenView>), TokenizerError> {
    match r {
        Ok((c, emitted2)) => Ok((c, emitted + emitted2)),
        Err(e) => Err(e),
    }
}

/// Prepending emissions in two steps is the same as prepending their
/// concatenation.
proof fn lemma_run_prepend_assoc(
    a: Seq<TokenView>,
    b: Seq<TokenView>,
    r: Result<(LexCore, Seq<TokenView>), TokenizerError>,
)
    ensures
        run_prepend(a + b, r) == run_prepend(a, run_prepend(b, r)),
{
    match r {
        Ok((c, emitted)) => {
            assert((a + b) + emitted =~= a + (b + emitted));
        },
        Err(_) => {},
    }
}

} // verus!
