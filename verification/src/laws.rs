//! Laws of the tokenizer and of the parser, stated over their mathematical
//! models and proved for every input.

use vstd::prelude::*;

use crate::lexer::{
    ident_token, run_prepend, spec_feed, spec_run, spec_scan_from, spec_step, spec_tokenize,
    FsmResult, LexCore, State, TokenizerError, ASTERISK, CARRIAGE_RETURN, EQUALS_SIGN,
    EXCLAMATION_MARK, FORWARD_SLASH, GREATER_THAN, HYPHEN, LINE_FEED,
};
use crate::ast::{BinaryOperator, ExprView, ProgramView, StmtView};
use crate::parser::{
    fold_binary, spec_parse_assignment_operand, spec_parse_assignment_operand_rest,
    spec_parse_comparison_operand, spec_parse_comparison_operand_rest, spec_parse_expression,
    spec_parse_expression_rest, spec_parse_expression_statement, spec_parse_factor,
    spec_parse_program, spec_parse_statement, spec_parse_stmts_until_end, spec_parse_term,
    spec_parse_term_rest, ParseError,
};
use crate::token::TokenView;

verus! {

/// What holds of every token the machine emits: it is never the
/// end-of-program sentinel, and a keyword's text is never emitted as an
/// identifier.
pub open spec fn emitted_token_ok(t: TokenView) -> bool {
    &&& t != TokenView::EndOfProgram
    &&& t matches TokenView::Identifier(name) ==> name != "var"@ && name != "func"@ && name
        != "return"@
}

/// Every token of a sequence satisfies [`emitted_token_ok`].
pub open spec fn emitted_tokens_ok(toks: Seq<TokenView>) -> bool {
    forall|i: int| 0 <= i < toks.len() ==> emitted_token_ok(#[trigger] toks[i])
}

/// One machine step never emits an end-of-program token, nor a keyword's
/// text as an identifier.
proof fn lemma_step_emissions_ok(c: LexCore, byte: Option<u8>)
    ensures
        emitted_tokens_ok(spec_step(c, byte).2),
{
    let emitted = spec_step(c, byte).2;
    assert forall|i: int| 0 <= i < emitted.len() implies emitted_token_ok(#[trigger] emitted[i]) by {
        assert(emitted_token_ok(ident_token(c.identifier)));
    }
}

/// One driver round never emits an end-of-program token, nor a keyword's
/// text as an identifier.
proof fn lemma_feed_emissions_ok(c: LexCore, byte: Option<u8>)
    ensures
        emitted_tokens_ok(spec_feed(c, byte).2),
{
    let (r1, c1, emitted1) = spec_step(c, byte);
    lemma_step_emissions_ok(c, byte);
    if r1 == FsmResult::Again {
        lemma_step_emissions_ok(c1, byte);
    }
}

/// A whole run never emits an end-of-program token, nor a keyword's text as
/// an identifier.
proof fn lemma_run_emissions_ok(c: LexCore, input: Seq<u8>)
    ensures
        spec_run(c, input) matches Ok(res) ==> emitted_tokens_ok(res.1),
    decreases input.len(),
{
    if input.len() == 0 {
    } else {
        let (r, c1, emitted1) = spec_feed(c, Option::Some(input[0]));
        lemma_feed_emissions_ok(c, Option::Some(input[0]));
        if r == FsmResult::Continue {
            lemma_run_emissions_ok(c1, input.drop_first());
        }
    }
}

/// A whole scan never emits an end-of-program token, nor a keyword's text
/// as an identifier.
proof fn lemma_scan_emissions_ok(c: LexCore, input: Seq<u8>)
    ensures
        spec_scan_from(c, input) matches Ok(res) ==> emitted_tokens_ok(res.1),
{
    lemma_run_emissions_ok(c, input);
    match spec_run(c, input) {
        Ok((c1, emitted1)) => {
            lemma_feed_emissions_ok(c1, Option::None);
        },
        Err(_) => {},
    }
}

/// Every successful tokenization ends with exactly one end-of-program
/// token: it stands last, and nowhere else.
pub proof fn lemma_end_of_program_terminator(input: Seq<u8>)
    ensures
        spec_tokenize(input) matches Ok(toks) ==> {
            &&& toks.len() > 0
            &&& toks.last() == TokenView::EndOfProgram
            &&& forall|i: int|
                0 <= i < toks.len() - 1 ==> #[trigger] toks[i] != TokenView::EndOfProgram
        },
{
    lemma_scan_emissions_ok(LexCore::init(), input);
}

/// True unless the token is an identifier holding a keyword's text.
pub open spec fn no_keyword_identifier(t: TokenView) -> bool {
    t matches TokenView::Identifier(name) ==> name != "var"@ && name != "func"@ && name
        != "return"@
}

/// No keyword text is ever emitted as an identifier: every identifier token
/// of a successful tokenization differs from `var`, `func` and `return`.
pub proof fn lemma_keyword_exclusivity(input: Seq<u8>)
    ensures
        spec_tokenize(input) matches Ok(toks) ==> forall|i: int|
            0 <= i < toks.len() ==> no_keyword_identifier(#[trigger] toks[i]),
{
    lemma_scan_emissions_ok(LexCore::init(), input);
    match spec_tokenize(input) {
        Ok(toks) => {
            assert forall|i: int| 0 <= i < toks.len() implies no_keyword_identifier(
                #[trigger] toks[i],
            ) by {
                if i < toks.len() - 1 {
                    let emitted = spec_scan_from(LexCore::init(), input)->Ok_0.1;
                    assert(emitted_token_ok(emitted[i]));
                }
            }
        },
        Err(_) => {},
    }
}

/// Running the machine over a concatenation is running it over the parts in
/// turn, with the emissions concatenated.
pub proof fn lemma_run_concat(c: LexCore, a: Seq<u8>, b: Seq<u8>)
    ensures
        spec_run(c, a + b) == (match spec_run(c, a) {
            Ok(res) => run_prepend(res.1, spec_run(res.0, b)),
            Err(e) => Err(e),
        }),
    decreases a.len(),
{
    if a.len() == 0 {
        assert(a + b =~= b);
        match spec_run(c, b) {
            Ok((c2, emitted)) => {
                assert(Seq::<TokenView>::empty() + emitted =~= emitted);
            },
            Err(_) => {},
        }
    } else {
        let whole = a + b;
        assert(whole[0] == a[0]);
        let (r, c1, emitted1) = spec_feed(c, Option::Some(a[0]));
        if r == FsmResult::Continue {
            assert(whole.drop_first() =~= a.drop_first() + b);
            lemma_run_concat(c1, a.drop_first(), b);
            match spec_run(c1, a.drop_first()) {
                Ok((c2, emitted2)) => {
                    match spec_run(c2, b) {
                        Ok((c3, emitted3)) => {
                            assert(emitted1 + (emitted2 + emitted3) =~= (emitted1 + emitted2)
                                + emitted3);
                        },
                        Err(_) => {},
                    }
                },
                Err(_) => {},
            }
        }
    }
}

/// A two-byte operator at the head of the input becomes one token, and the
/// rest of the input tokenizes as it would alone: the greedy longest match
/// never decomposes.
proof fn lemma_digraph_prefix(first: u8, second: u8, token: TokenView, rest: Seq<u8>)
    requires
        spec_run(LexCore::init(), seq![first, second]) == Result::<
            (LexCore, Seq<TokenView>),
            TokenizerError,
        >::Ok((LexCore::init(), seq![token])),
    ensures
        spec_tokenize(seq![first, second] + rest) == (match spec_tokenize(rest) {
            Ok(toks) => Ok::<Seq<TokenView>, TokenizerError>(seq![token] + toks),
            Err(e) => Err(e),
        }),
{
    lemma_run_concat(LexCore::init(), seq![first, second], rest);
    match spec_run(LexCore::init(), rest) {
        Ok((c2, emitted2)) => {
            let (r3, c3, emitted3) = spec_feed(c2, Option::None);
            if r3 == FsmResult::Done {
                assert((seq![token] + emitted2 + emitted3).push(TokenView::EndOfProgram)
                    =~= seq![token] + (emitted2 + emitted3).push(TokenView::EndOfProgram));
            }
        },
        Err(_) => {},
    }
}

/// `==` at the head of the input tokenizes as one `Equal` token, never as
/// two `Assign` tokens.
pub proof fn lemma_greedy_equal(rest: Seq<u8>)
    ensures
        spec_tokenize(seq![EQUALS_SIGN, EQUALS_SIGN] + rest) == (match spec_tokenize(rest) {
            Ok(toks) => Ok::<Seq<TokenView>, TokenizerError>(seq![TokenView::Equal] + toks),
            Err(e) => Err(e),
        }),
{
    reveal_with_fuel(spec_run, 4);
    let two = seq![EQUALS_SIGN, EQUALS_SIGN];
    assert(two.drop_first() =~= seq![EQUALS_SIGN]);
    assert(seq![EQUALS_SIGN].drop_first() =~= Seq::<u8>::empty());
    assert(spec_run(LexCore::init(), two) == Result::<
        (LexCore, Seq<TokenView>),
        TokenizerError,
    >::Ok((LexCore::init(), seq![TokenView::Equal])));
    lemma_digraph_prefix(EQUALS_SIGN, EQUALS_SIGN, TokenView::Equal, rest);
}

/// `!=` at the head of the input tokenizes as one `NotEqual` token; it
/// never decomposes (a lone `!` is no token at all).
pub proof fn lemma_greedy_not_equal(rest: Seq<u8>)
    ensures
        spec_tokenize(seq![EXCLAMATION_MARK, EQUALS_SIGN] + rest) == (match spec_tokenize(rest) {
            Ok(toks) => Ok::<Seq<TokenView>, TokenizerError>(seq![TokenView::NotEqual] + toks),
            Err(e) => Err(e),
        }),
{
    reveal_with_fuel(spec_run, 4);
    let two = seq![EXCLAMATION_MARK, EQUALS_SIGN];
    assert(two.drop_first() =~= seq![EQUALS_SIGN]);
    assert(seq![EQUALS_SIGN].drop_first() =~= Seq::<u8>::empty());
    assert(spec_run(LexCore::init(), two) == Result::<
        (LexCore, Seq<TokenView>),
        TokenizerError,
    >::Ok((LexCore::init(), seq![TokenView::NotEqual])));
    lemma_digraph_prefix(EXCLAMATION_MARK, EQUALS_SIGN, TokenView::NotEqual, rest);
}

/// `->` at the head of the input tokenizes as one return-type-indicator
/// token, never as `-` then `>`.
pub proof fn lemma_greedy_arrow(rest: Seq<u8>)
    ensures
        spec_tokenize(seq![HYPHEN, GREATER_THAN] + rest) == (match spec_tokenize(rest) {
            Ok(toks) => Ok::<Seq<TokenView>, TokenizerError>(
                seq![TokenView::ReturnTypeIndicator] + toks,
            ),
            Err(e) => Err(e),
        }),
{
    reveal_with_fuel(spec_run, 4);
    let two = seq![HYPHEN, GREATER_THAN];
    assert(two.drop_first() =~= seq![GREATER_THAN]);
    assert(seq![GREATER_THAN].drop_first() =~= Seq::<u8>::empty());
    assert(spec_run(LexCore::init(), two) == Result::<
        (LexCore, Seq<TokenView>),
        TokenizerError,
    >::Ok((LexCore::init(), seq![TokenView::ReturnTypeIndicator])));
    lemma_digraph_prefix(HYPHEN, GREATER_THAN, TokenView::ReturnTypeIndicator, rest);
}

/// True when a multi-line comment's interior never closes the comment
/// early: no `/` arrives while the scanner has just seen a `*`.
pub open spec fn no_early_close(saw_star: bool, interior: Seq<u8>) -> bool
    decreases interior.len(),
{
    if interior.len() == 0 {
        true
    } else if saw_star && interior[0] == FORWARD_SLASH {
        false
    } else {
        no_early_close(interior[0] == ASTERISK, interior.drop_first())
    }
}

/// Scanning a comment's interior and then `*/` returns the machine to the
/// start state, with nothing emitted.
proof fn lemma_comment_interior(c: LexCore, saw_star: bool, interior: Seq<u8>)
    requires
        c.state == (if saw_star {
            State::HaveMultiLineCommentEndCharAsterisk
        } else {
            State::HaveMultiLineCommentStart
        }),
        no_early_close(saw_star, interior),
    ensures
        spec_run(c, interior + seq![ASTERISK, FORWARD_SLASH]) == Result::<
            (LexCore, Seq<TokenView>),
            TokenizerError,
        >::Ok((LexCore { state: State::Start, ..c }, Seq::empty())),
    decreases interior.len(),
{
    reveal_with_fuel(spec_run, 4);
    if interior.len() == 0 {
        let closing = interior + seq![ASTERISK, FORWARD_SLASH];
        assert(closing =~= seq![ASTERISK, FORWARD_SLASH]);
        assert(closing.drop_first() =~= seq![FORWARD_SLASH]);
        assert(seq![FORWARD_SLASH].drop_first() =~= Seq::<u8>::empty());
        assert(Seq::<TokenView>::empty() + (Seq::<TokenView>::empty()
            + Seq::<TokenView>::empty()) =~= Seq::<TokenView>::empty());
    } else {
        let whole = interior + seq![ASTERISK, FORWARD_SLASH];
        assert(whole[0] == interior[0]);
        assert(whole.drop_first() =~= interior.drop_first() + seq![ASTERISK, FORWARD_SLASH]);
        let saw_star2 = interior[0] == ASTERISK;
        let c1 = spec_feed(c, Option::Some(interior[0])).1;
        lemma_comment_interior(c1, saw_star2, interior.drop_first());
        assert(LexCore { state: State::Start, ..c1 } == LexCore { state: State::Start, ..c });
        assert(Seq::<TokenView>::empty() + Seq::<TokenView>::empty()
            =~= Seq::<TokenView>::empty());
    }
}

/// A well-formed multi-line comment between lexemes is transparent: the
/// scan of `/*`, an interior that does not close early, `*/` and the rest
/// equals the scan of the rest alone.
pub proof fn lemma_block_comment_transparent(c: LexCore, interior: Seq<u8>, rest: Seq<u8>)
    requires
        c.state is Start,
        no_early_close(false, interior),
    ensures
        spec_scan_from(
            c,
            seq![FORWARD_SLASH, ASTERISK] + (interior + seq![ASTERISK, FORWARD_SLASH]) + rest,
        ) == spec_scan_from(c, rest),
{
    reveal_with_fuel(spec_run, 4);
    let opening = seq![FORWARD_SLASH, ASTERISK];
    let closing_part = interior + seq![ASTERISK, FORWARD_SLASH];
    let comment = opening + closing_part;

    assert(opening.drop_first() =~= seq![ASTERISK]);
    assert(seq![ASTERISK].drop_first() =~= Seq::<u8>::empty());
    let c_in = LexCore { state: State::HaveMultiLineCommentStart, ..c };
    assert(spec_run(c, opening) == Result::<(LexCore, Seq<TokenView>), TokenizerError>::Ok(
        (c_in, Seq::empty()),
    ));

    lemma_comment_interior(c_in, false, interior);
    assert(LexCore { state: State::Start, ..c_in } == c);

    lemma_run_concat(c, opening, closing_part);
    assert(spec_run(c, comment) == Result::<(LexCore, Seq<TokenView>), TokenizerError>::Ok(
        (c, Seq::empty() + Seq::empty()),
    ));
    assert(Seq::<TokenView>::empty() + Seq::<TokenView>::empty() =~= Seq::<TokenView>::empty());

    lemma_run_concat(c, comment, rest);
    assert(comment + rest =~= seq![FORWARD_SLASH, ASTERISK] + (interior + seq![
        ASTERISK,
        FORWARD_SLASH,
    ]) + rest);
    match spec_run(c, rest) {
        Ok((c2, emitted2)) => {
            assert(Seq::<TokenView>::empty() + emitted2 =~= emitted2);
        },
        Err(_) => {},
    }
}

/// A single-line comment between lexemes is transparent: the scan of `//`,
/// an interior without line ends, a line feed and the rest equals the scan
/// of the rest alone.
pub proof fn lemma_line_comment_transparent(c: LexCore, interior: Seq<u8>, rest: Seq<u8>)
    requires
        c.state is Start,
        forall|i: int|
            0 <= i < interior.len() ==> #[trigger] interior[i] != CARRIAGE_RETURN && interior[i]
                != LINE_FEED,
    ensures
        spec_scan_from(
            c,
            seq![FORWARD_SLASH, FORWARD_SLASH] + (interior + seq![LINE_FEED]) + rest,
        ) == spec_scan_from(c, rest),
{
    reveal_with_fuel(spec_run, 4);
    let opening = seq![FORWARD_SLASH, FORWARD_SLASH];
    let closing_part = interior + seq![LINE_FEED];
    let comment = opening + closing_part;

    assert(opening.drop_first() =~= seq![FORWARD_SLASH]);
    assert(seq![FORWARD_SLASH].drop_first() =~= Seq::<u8>::empty());
    let c_in = LexCore { state: State::HaveSingleLineCommentStart, ..c };
    assert(spec_run(c, opening) == Result::<(LexCore, Seq<TokenView>), TokenizerError>::Ok(
        (c_in, Seq::empty()),
    ));

    lemma_line_comment_interior(c_in, interior);
    assert(LexCore { state: State::Start, ..c_in } == c);

    lemma_run_concat(c, opening, closing_part);
    assert(Seq::<TokenView>::empty() + Seq::<TokenView>::empty() =~= Seq::<TokenView>::empty());

    lemma_run_concat(c, comment, rest);
    assert(comment + rest =~= seq![FORWARD_SLASH, FORWARD_SLASH] + (interior + seq![LINE_FEED])
        + rest);
    match spec_run(c, rest) {
        Ok((c2, emitted2)) => {
            assert(Seq::<TokenView>::empty() + emitted2 =~= emitted2);
        },
        Err(_) => {},
    }
}

/// Scanning a single-line comment's interior and then a line feed returns
/// the machine to the start state, with nothing emitted.
proof fn lemma_line_comment_interior(c: LexCore, interior: Seq<u8>)
    requires
        c.state is HaveSingleLineCommentStart,
        forall|i: int|
            0 <= i < interior.len() ==> #[trigger] interior[i] != CARRIAGE_RETURN && interior[i]
                != LINE_FEED,
    ensures
        spec_run(c, interior + seq![LINE_FEED]) == Result::<
            (LexCore, Seq<TokenView>),
            TokenizerError,
        >::Ok((LexCore { state: State::Start, ..c }, Seq::empty())),
    decreases interior.len(),
{
    reveal_with_fuel(spec_run, 4);
    if interior.len() == 0 {
        let closing = interior + seq![LINE_FEED];
        assert(closing =~= seq![LINE_FEED]);
        assert(seq![LINE_FEED].drop_first() =~= Seq::<u8>::empty());
        assert(Seq::<TokenView>::empty() + Seq::<TokenView>::empty()
            =~= Seq::<TokenView>::empty());
    } else {
        let whole = interior + seq![LINE_FEED];
        assert(whole[0] == interior[0]);
        assert(whole.drop_first() =~= interior.drop_first() + seq![LINE_FEED]);
        let c1 = spec_feed(c, Option::Some(interior[0])).1;
        assert(c1 == c);
        lemma_line_comment_interior(c1, interior.drop_first());
        assert(Seq::<TokenView>::empty() + Seq::<TokenView>::empty()
            =~= Seq::<TokenView>::empty());
    }
}


/// A token sequence holding one expression, `;` and the end-of-program
/// token parses as a program of one expression statement.
proof fn lemma_single_expression_program(toks: Seq<TokenView>, e: ExprView, n: int)
    requires
        spec_parse_expression(toks, 0) == Result::<(ExprView, int), ParseError>::Ok((e, n)),
        0 < n,
        toks.len() == n + 2,
        toks[n] == TokenView::EndOfStatement,
        toks[n + 1] == TokenView::EndOfProgram,
        toks[0] is Identifier,
    ensures
        spec_parse_program(toks, 0) == Result::<(ProgramView, int), ParseError>::Ok(
            (ProgramView { statements: seq![StmtView::Expression { expression: e }] }, n + 1),
        ),
{
    let stmt = StmtView::Expression { expression: e };
    assert(spec_parse_expression_statement(toks, 0) == Result::<
        (StmtView, int),
        ParseError,
    >::Ok((stmt, n + 1)));
    assert(spec_parse_statement(toks, 0) == Result::<(StmtView, int), ParseError>::Ok(
        (stmt, n + 1),
    ));
    reveal_with_fuel(spec_parse_stmts_until_end, 3);
    assert(seq![stmt] + Seq::<StmtView>::empty() =~= seq![stmt]);
    assert(spec_parse_stmts_until_end(toks, 0) == Result::<
        (Seq<StmtView>, int),
        ParseError,
    >::Ok((seq![stmt], n + 1)));
}

/// The evaluation of one additive-tier operand: a lone identifier at `pos`,
/// followed by a token that ends every expression tier.
proof fn lemma_identifier_operand(toks: Seq<TokenView>, name: Seq<char>, pos: int)
    requires
        0 <= pos,
        pos + 1 < toks.len(),
        toks[pos] == TokenView::Identifier(name),
        toks[pos + 1] is EndOfStatement || toks[pos + 1] is Assign || toks[pos + 1] is Equal
            || toks[pos + 1] is NotEqual || toks[pos + 1] is Add || toks[pos + 1] is Minus,
    ensures
        spec_parse_factor(toks, pos) == Result::<(ExprView, int), ParseError>::Ok(
            (ExprView::Identifier(name), pos + 1),
        ),
        spec_parse_term(toks, pos) == Result::<(ExprView, int), ParseError>::Ok(
            (ExprView::Identifier(name), pos + 1),
        ),
{
    let ident = ExprView::Identifier(name);
    assert(spec_parse_factor(toks, pos) == Result::<(ExprView, int), ParseError>::Ok(
        (ident, pos + 1),
    ));
    assert(spec_parse_term_rest(toks, ident, pos + 1) == Result::<
        (ExprView, int),
        ParseError,
    >::Ok((ident, pos + 1)));
}

/// In `a * b + c`, multiplication binds tighter: the program parses as
/// `(a * b) + c`.
pub proof fn lemma_precedence_times_then_add(a: Seq<char>, b: Seq<char>, c: Seq<char>)
    ensures
        ({
            let toks = seq![
                TokenView::Identifier(a),
                TokenView::Times,
                TokenView::Identifier(b),
                TokenView::Add,
                TokenView::Identifier(c),
                TokenView::EndOfStatement,
                TokenView::EndOfProgram,
            ];
            let product = fold_binary(
                BinaryOperator::Multiplication,
                ExprView::Identifier(a),
                ExprView::Identifier(b),
            );
            let sum = fold_binary(BinaryOperator::Addition, product, ExprView::Identifier(c));
            spec_parse_program(toks, 0) == Result::<(ProgramView, int), ParseError>::Ok(
                (ProgramView { statements: seq![StmtView::Expression { expression: sum }] }, 6),
            )
        }),
{
    let toks = seq![
        TokenView::Identifier(a),
        TokenView::Times,
        TokenView::Identifier(b),
        TokenView::Add,
        TokenView::Identifier(c),
        TokenView::EndOfStatement,
        TokenView::EndOfProgram,
    ];
    let ident_a = ExprView::Identifier(a);
    let ident_b = ExprView::Identifier(b);
    let ident_c = ExprView::Identifier(c);
    let product = fold_binary(BinaryOperator::Multiplication, ident_a, ident_b);
    let sum = fold_binary(BinaryOperator::Addition, product, ident_c);

    assert(spec_parse_factor(toks, 0) == Result::<(ExprView, int), ParseError>::Ok((ident_a, 1)));
    assert(spec_parse_factor(toks, 2) == Result::<(ExprView, int), ParseError>::Ok((ident_b, 3)));
    assert(spec_parse_term_rest(toks, product, 3) == Result::<(ExprView, int), ParseError>::Ok(
        (product, 3),
    ));
    assert(spec_parse_term_rest(toks, ident_a, 1) == Result::<(ExprView, int), ParseError>::Ok(
        (product, 3),
    ));
    assert(spec_parse_term(toks, 0) == Result::<(ExprView, int), ParseError>::Ok((product, 3)));
    lemma_identifier_operand(toks, c, 4);
    assert(spec_parse_comparison_operand_rest(toks, sum, 5) == Result::<
        (ExprView, int),
        ParseError,
    >::Ok((sum, 5)));
    assert(spec_parse_comparison_operand_rest(toks, product, 3) == Result::<
        (ExprView, int),
        ParseError,
    >::Ok((sum, 5)));
    assert(spec_parse_comparison_operand(toks, 0) == Result::<(ExprView, int), ParseError>::Ok(
        (sum, 5),
    ));
    assert(spec_parse_assignment_operand(toks, 0) == Result::<(ExprView, int), ParseError>::Ok(
        (sum, 5),
    ));
    assert(spec_parse_expression(toks, 0) == Result::<(ExprView, int), ParseError>::Ok((sum, 5)));
    lemma_single_expression_program(toks, sum, 5);
}

/// In `a + b * c`, multiplication binds tighter: the program parses as
/// `a + (b * c)`.
pub proof fn lemma_precedence_add_then_times(a: Seq<char>, b: Seq<char>, c: Seq<char>)
    ensures
        ({
            let toks = seq![
                TokenView::Identifier(a),
                TokenView::Add,
                TokenView::Identifier(b),
                TokenView::Times,
                TokenView::Identifier(c),
                TokenView::EndOfStatement,
                TokenView::EndOfProgram,
            ];
            let product = fold_binary(
                BinaryOperator::Multiplication,
                ExprView::Identifier(b),
                ExprView::Identifier(c),
            );
            let sum = fold_binary(BinaryOperator::Addition, ExprView::Identifier(a), product);
            spec_parse_program(toks, 0) == Result::<(ProgramView, int), ParseError>::Ok(
                (ProgramView { statements: seq![StmtView::Expression { expression: sum }] }, 6),
            )
        }),
{
    let toks = seq![
        TokenView::Identifier(a),
        TokenView::Add,
        TokenView::Identifier(b),
        TokenView::Times,
        TokenView::Identifier(c),
        TokenView::EndOfStatement,
        TokenView::EndOfProgram,
    ];
    let ident_a = ExprView::Identifier(a);
    let ident_b = ExprView::Identifier(b);
    let ident_c = ExprView::Identifier(c);
    let product = fold_binary(BinaryOperator::Multiplication, ident_b, ident_c);
    let sum = fold_binary(BinaryOperator::Addition, ident_a, product);

    assert(spec_parse_factor(toks, 0) == Result::<(ExprView, int), ParseError>::Ok((ident_a, 1)));
    assert(spec_parse_term_rest(toks, ident_a, 1) == Result::<(ExprView, int), ParseError>::Ok(
        (ident_a, 1),
    ));
    assert(spec_parse_term(toks, 0) == Result::<(ExprView, int), ParseError>::Ok((ident_a, 1)));
    assert(spec_parse_factor(toks, 2) == Result::<(ExprView, int), ParseError>::Ok((ident_b, 3)));
    assert(spec_parse_factor(toks, 4) == Result::<(ExprView, int), ParseError>::Ok((ident_c, 5)));
    assert(spec_parse_term_rest(toks, product, 5) == Result::<(ExprView, int), ParseError>::Ok(
        (product, 5),
    ));
    assert(spec_parse_term_rest(toks, ident_b, 3) == Result::<(ExprView, int), ParseError>::Ok(
        (product, 5),
    ));
    assert(spec_parse_term(toks, 2) == Result::<(ExprView, int), ParseError>::Ok((product, 5)));
    assert(spec_parse_comparison_operand_rest(toks, sum, 5) == Result::<
        (ExprView, int),
        ParseError,
    >::Ok((sum, 5)));
    assert(spec_parse_comparison_operand_rest(toks, ident_a, 1) == Result::<
        (ExprView, int),
        ParseError,
    >::Ok((sum, 5)));
    assert(spec_parse_comparison_operand(toks, 0) == Result::<(ExprView, int), ParseError>::Ok(
        (sum, 5),
    ));
    assert(spec_parse_assignment_operand(toks, 0) == Result::<(ExprView, int), ParseError>::Ok(
        (sum, 5),
    ));
    assert(spec_parse_expression(toks, 0) == Result::<(ExprView, int), ParseError>::Ok((sum, 5)));
    lemma_single_expression_program(toks, sum, 5);
}

/// `a - b - c` folds left-associatively: the program parses as
/// `(a - b) - c`.
pub proof fn lemma_subtraction_left_associative(a: Seq<char>, b: Seq<char>, c: Seq<char>)
    ensures
        ({
            let toks = seq![
                TokenView::Identifier(a),
                TokenView::Minus,
                TokenView::Identifier(b),
                TokenView::Minus,
                TokenView::Identifier(c),
                TokenView::EndOfStatement,
                TokenView::EndOfProgram,
            ];
            let first = fold_binary(
                BinaryOperator::Subtraction,
                ExprView::Identifier(a),
                ExprView::Identifier(b),
            );
            let second = fold_binary(BinaryOperator::Subtraction, first, ExprView::Identifier(c));
            spec_parse_program(toks, 0) == Result::<(ProgramView, int), ParseError>::Ok(
                (
                    ProgramView { statements: seq![StmtView::Expression { expression: second }] },
                    6,
                ),
            )
        }),
{
    let toks = seq![
        TokenView::Identifier(a),
        TokenView::Minus,
        TokenView::Identifier(b),
        TokenView::Minus,
        TokenView::Identifier(c),
        TokenView::EndOfStatement,
        TokenView::EndOfProgram,
    ];
    let ident_a = ExprView::Identifier(a);
    let ident_b = ExprView::Identifier(b);
    let ident_c = ExprView::Identifier(c);
    let first = fold_binary(BinaryOperator::Subtraction, ident_a, ident_b);
    let second = fold_binary(BinaryOperator::Subtraction, first, ident_c);

    lemma_identifier_operand(toks, a, 0);
    lemma_identifier_operand(toks, b, 2);
    lemma_identifier_operand(toks, c, 4);
    assert(spec_parse_comparison_operand_rest(toks, second, 5) == Result::<
        (ExprView, int),
        ParseError,
    >::Ok((second, 5)));
    assert(spec_parse_comparison_operand_rest(toks, first, 3) == Result::<
        (ExprView, int),
        ParseError,
    >::Ok((second, 5)));
    assert(spec_parse_comparison_operand_rest(toks, ident_a, 1) == Result::<
        (ExprView, int),
        ParseError,
    >::Ok((second, 5)));
    assert(spec_parse_comparison_operand(toks, 0) == Result::<(ExprView, int), ParseError>::Ok(
        (second, 5),
    ));
    assert(spec_parse_assignment_operand(toks, 0) == Result::<(ExprView, int), ParseError>::Ok(
        (second, 5),
    ));
    assert(spec_parse_expression(toks, 0) == Result::<(ExprView, int), ParseError>::Ok(
        (second, 5),
    ));
    lemma_single_expression_program(toks, second, 5);
}

/// In `a == b + c`, addition binds tighter: the program parses as
/// `a == (b + c)`.
pub proof fn lemma_equality_binds_looser(a: Seq<char>, b: Seq<char>, c: Seq<char>)
    ensures
        ({
            let toks = seq![
                TokenView::Identifier(a),
                TokenView::Equal,
                TokenView::Identifier(b),
                TokenView::Add,
                TokenView::Identifier(c),
                TokenView::EndOfStatement,
                TokenView::EndOfProgram,
            ];
            let sum = fold_binary(
                BinaryOperator::Addition,
                ExprView::Identifier(b),
                ExprView::Identifier(c),
            );
            let equality = fold_binary(BinaryOperator::Equal, ExprView::Identifier(a), sum);
            spec_parse_program(toks, 0) == Result::<(ProgramView, int), ParseError>::Ok(
                (
                    ProgramView {
                        statements: seq![StmtView::Expression { expression: equality }],
                    },
                    6,
                ),
            )
        }),
{
    let toks = seq![
        TokenView::Identifier(a),
        TokenView::Equal,
        TokenView::Identifier(b),
        TokenView::Add,
        TokenView::Identifier(c),
        TokenView::EndOfStatement,
        TokenView::EndOfProgram,
    ];
    let ident_a = ExprView::Identifier(a);
    let ident_b = ExprView::Identifier(b);
    let ident_c = ExprView::Identifier(c);
    let sum = fold_binary(BinaryOperator::Addition, ident_b, ident_c);
    let equality = fold_binary(BinaryOperator::Equal, ident_a, sum);

    lemma_identifier_operand(toks, a, 0);
    lemma_identifier_operand(toks, b, 2);
    lemma_identifier_operand(toks, c, 4);
    assert(spec_parse_comparison_operand_rest(toks, ident_a, 1) == Result::<
        (ExprView, int),
        ParseError,
    >::Ok((ident_a, 1)));
    assert(spec_parse_comparison_operand(toks, 0) == Result::<(ExprView, int), ParseError>::Ok(
        (ident_a, 1),
    ));
    assert(spec_parse_comparison_operand_rest(toks, sum, 5) == Result::<
        (ExprView, int),
        ParseError,
    >::Ok((sum, 5)));
    assert(spec_parse_comparison_operand_rest(toks, ident_b, 3) == Result::<
        (ExprView, int),
        ParseError,
    >::Ok((sum, 5)));
    assert(spec_parse_comparison_operand(toks, 2) == Result::<(ExprView, int), ParseError>::Ok(
        (sum, 5),
    ));
    assert(spec_parse_assignment_operand_rest(toks, equality, 5) == Result::<
        (ExprView, int),
        ParseError,
    >::Ok((equality, 5)));
    assert(spec_parse_assignment_operand_rest(toks, ident_a, 1) == Result::<
        (ExprView, int),
        ParseError,
    >::Ok((equality, 5)));
    assert(spec_parse_assignment_operand(toks, 0) == Result::<(ExprView, int), ParseError>::Ok(
        (equality, 5),
    ));
    assert(spec_parse_expression(toks, 0) == Result::<(ExprView, int), ParseError>::Ok(
        (equality, 5),
    ));
    lemma_single_expression_program(toks, equality, 5);
}

/// `a = b = c` folds left-associatively, like every other tier: the program
/// parses as `(a = b) = c`.
pub proof fn lemma_assignment_left_associative(a: Seq<char>, b: Seq<char>, c: Seq<char>)
    ensures
        ({
            let toks = seq![
                TokenView::Identifier(a),
                TokenView::Assign,
                TokenView::Identifier(b),
                TokenView::Assign,
                TokenView::Identifier(c),
                TokenView::EndOfStatement,
                TokenView::EndOfProgram,
            ];
            let first = fold_binary(
                BinaryOperator::Assign,
                ExprView::Identifier(a),
                ExprView::Identifier(b),
            );
            let second = fold_binary(BinaryOperator::Assign, first, ExprView::Identifier(c));
            spec_parse_program(toks, 0) == Result::<(ProgramView, int), ParseError>::Ok(
                (
                    ProgramView { statements: seq![StmtView::Expression { expression: second }] },
                    6,
                ),
            )
        }),
{
    let toks = seq![
        TokenView::Identifier(a),
        TokenView::Assign,
        TokenView::Identifier(b),
        TokenView::Assign,
        TokenView::Identifier(c),
        TokenView::EndOfStatement,
        TokenView::EndOfProgram,
    ];
    let ident_a = ExprView::Identifier(a);
    let ident_b = ExprView::Identifier(b);
    let ident_c = ExprView::Identifier(c);
    let first = fold_binary(BinaryOperator::Assign, ident_a, ident_b);
    let second = fold_binary(BinaryOperator::Assign, first, ident_c);

    lemma_identifier_operand(toks, a, 0);
    lemma_identifier_operand(toks, b, 2);
    lemma_identifier_operand(toks, c, 4);
    assert(spec_parse_comparison_operand_rest(toks, ident_a, 1) == Result::<
        (ExprView, int),
        ParseError,
    >::Ok((ident_a, 1)));
    assert(spec_parse_comparison_operand(toks, 0) == Result::<(ExprView, int), ParseError>::Ok(
        (ident_a, 1),
    ));
    assert(spec_parse_assignment_operand_rest(toks, ident_a, 1) == Result::<
        (ExprView, int),
        ParseError,
    >::Ok((ident_a, 1)));
    assert(spec_parse_assignment_operand(toks, 0) == Result::<(ExprView, int), ParseError>::Ok(
        (ident_a, 1),
    ));
    assert(spec_parse_comparison_operand_rest(toks, ident_b, 3) == Result::<
        (ExprView, int),
        ParseError,
    >::Ok((ident_b, 3)));
    assert(spec_parse_comparison_operand(toks, 2) == Result::<(ExprView, int), ParseError>::Ok(
        (ident_b, 3),
    ));
    assert(spec_parse_assignment_operand_rest(toks, ident_b, 3) == Result::<
        (ExprView, int),
        ParseError,
    >::Ok((ident_b, 3)));
    assert(spec_parse_assignment_operand(toks, 2) == Result::<(ExprView, int), ParseError>::Ok(
        (ident_b, 3),
    ));
    assert(spec_parse_comparison_operand_rest(toks, ident_c, 5) == Result::<
        (ExprView, int),
        ParseError,
    >::Ok((ident_c, 5)));
    assert(spec_parse_comparison_operand(toks, 4) == Result::<(ExprView, int), ParseError>::Ok(
        (ident_c, 5),
    ));
    assert(spec_parse_assignment_operand_rest(toks, ident_c, 5) == Result::<
        (ExprView, int),
        ParseError,
    >::Ok((ident_c, 5)));
    assert(spec_parse_assignment_operand(toks, 4) == Result::<(ExprView, int), ParseError>::Ok(
        (ident_c, 5),
    ));
    assert(spec_parse_expression_rest(toks, second, 5) == Result::<
        (ExprView, int),
        ParseError,
    >::Ok((second, 5)));
    assert(spec_parse_expression_rest(toks, first, 3) == Result::<(ExprView, int), ParseError>::Ok(
        (second, 5),
    ));
    assert(spec_parse_expression_rest(toks, ident_a, 1) == Result::<
        (ExprView, int),
        ParseError,
    >::Ok((second, 5)));
    assert(spec_parse_expression(toks, 0) == Result::<(ExprView, int), ParseError>::Ok(
        (second, 5),
    ));
    lemma_single_expression_program(toks, second, 5);
}

} // verus!
