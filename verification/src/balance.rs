//! Bracket balance: every successful parse confirms that each `(` is
//! matched by `)` and each `{` by `}` in the tokens it consumed. The proof
//! walks the grammar production by production.

use vstd::prelude::*;

use crate::ast::ExprView;
use crate::parser::{
    made_progress, peek_token, spec_parse_argument_list, spec_parse_assignment_operand,
    spec_parse_assignment_operand_rest, spec_parse_block_statement, spec_parse_call_arguments,
    spec_parse_comparison_operand, spec_parse_comparison_operand_rest, spec_parse_expression,
    spec_parse_expression_rest, spec_parse_expression_statement, spec_parse_factor,
    spec_parse_function_body, spec_parse_function_definition, spec_parse_function_parameter,
    spec_parse_function_parameters, spec_parse_grouped_expression,
    spec_parse_identifier_or_function_call, spec_parse_number, spec_parse_optional_return_type,
    spec_parse_optional_type, spec_parse_parameter_list, spec_parse_parameters_nonempty,
    spec_parse_program, spec_parse_return_statement, spec_parse_statement,
    spec_parse_stmts_until_close, spec_parse_stmts_until_end, spec_parse_string,
    spec_parse_term, spec_parse_term_rest, spec_parse_var_def_after_type,
    spec_parse_variable_definition,
};
use crate::token::TokenView;

verus! {

/// The nesting contribution of one token to round brackets: `(` opens,
/// `)` closes.
pub open spec fn round_delta(t: TokenView) -> int {
    match t {
        TokenView::LeftRoundBracket => 1,
        TokenView::RightRoundBracket => -1,
        _ => 0,
    }
}

/// The nesting contribution of one token to curly brackets: `{` opens,
/// `}` closes.
pub open spec fn curly_delta(t: TokenView) -> int {
    match t {
        TokenView::LeftCurlyBracket => 1,
        TokenView::RightCurlyBracket => -1,
        _ => 0,
    }
}

/// The round-bracket nesting over a whole segment.
pub open spec fn round_sum(s: Seq<TokenView>) -> int
    decreases s.len(),
{
    if s.len() == 0 {
        0
    } else {
        round_delta(s[0]) + round_sum(s.drop_first())
    }
}

/// The lowest round-bracket nesting any prefix of the segment reaches.
pub open spec fn round_min(s: Seq<TokenView>) -> int
    decreases s.len(),
{
    if s.len() == 0 {
        0
    } else {
        vstd::math::min(0, round_delta(s[0]) + round_min(s.drop_first()))
    }
}

/// The curly-bracket nesting over a whole segment.
pub open spec fn curly_sum(s: Seq<TokenView>) -> int
    decreases s.len(),
{
    if s.len() == 0 {
        0
    } else {
        curly_delta(s[0]) + curly_sum(s.drop_first())
    }
}

/// The lowest curly-bracket nesting any prefix of the segment reaches.
pub open spec fn curly_min(s: Seq<TokenView>) -> int
    decreases s.len(),
{
    if s.len() == 0 {
        0
    } else {
        vstd::math::min(0, curly_delta(s[0]) + curly_min(s.drop_first()))
    }
}

/// Brackets are balanced over the segment: each kind's nesting returns to
/// zero and never goes below it, so every `(` is matched by `)` and every
/// `{` by `}`.
pub open spec fn balanced_segment(s: Seq<TokenView>) -> bool {
    &&& round_sum(s) == 0
    &&& round_min(s) == 0
    &&& curly_sum(s) == 0
    &&& curly_min(s) == 0
}

/// The shape of a list that ends at its caller's closing `)`: one round
/// bracket more is closed than opened, nesting never drops further, and
/// curly brackets are balanced.
pub open spec fn closing_list_segment(s: Seq<TokenView>) -> bool {
    &&& round_sum(s) == -1
    &&& round_min(s) >= -1
    &&& curly_sum(s) == 0
    &&& curly_min(s) == 0
}

/// Sums and minimums over a concatenation, from the parts.
proof fn lemma_sums_concat(a: Seq<TokenView>, b: Seq<TokenView>)
    ensures
        round_sum(a + b) == round_sum(a) + round_sum(b),
        round_min(a + b) == vstd::math::min(round_min(a), round_sum(a) + round_min(b)),
        curly_sum(a + b) == curly_sum(a) + curly_sum(b),
        curly_min(a + b) == vstd::math::min(curly_min(a), curly_sum(a) + curly_min(b)),
    decreases a.len(),
{
    if a.len() == 0 {
        assert(a + b =~= b);
        if b.len() > 0 {
        }
    } else {
        assert((a + b)[0] == a[0]);
        assert((a + b).drop_first() =~= a.drop_first() + b);
        lemma_sums_concat(a.drop_first(), b);
    }
}

/// Concatenating balanced segments keeps them balanced.
proof fn lemma_balanced_concat(a: Seq<TokenView>, b: Seq<TokenView>)
    requires
        balanced_segment(a),
        balanced_segment(b),
    ensures
        balanced_segment(a + b),
{
    lemma_sums_concat(a, b);
}

/// A single token that is no bracket forms a balanced segment.
proof fn lemma_single_neutral(t: TokenView)
    requires
        round_delta(t) == 0,
        curly_delta(t) == 0,
    ensures
        balanced_segment(seq![t]),
{
    reveal_with_fuel(round_sum, 2);
    reveal_with_fuel(round_min, 2);
    reveal_with_fuel(curly_sum, 2);
    reveal_with_fuel(curly_min, 2);
    assert(seq![t].drop_first() =~= Seq::<TokenView>::empty());
}

/// The balance of a single token's segment is its delta.
proof fn lemma_single_token(t: TokenView)
    ensures
        round_sum(seq![t]) == round_delta(t),
        round_min(seq![t]) == vstd::math::min(0, round_delta(t)),
        curly_sum(seq![t]) == curly_delta(t),
        curly_min(seq![t]) == vstd::math::min(0, curly_delta(t)),
{
    reveal_with_fuel(round_sum, 2);
    reveal_with_fuel(round_min, 2);
    reveal_with_fuel(curly_sum, 2);
    reveal_with_fuel(curly_min, 2);
    assert(seq![t].drop_first() =~= Seq::<TokenView>::empty());
}

/// Splits the segment `[pos, pos2)` at `mid`.
proof fn lemma_segment_split(toks: Seq<TokenView>, pos: int, mid: int, pos2: int)
    requires
        0 <= pos <= mid <= pos2 <= toks.len(),
    ensures
        toks.subrange(pos, pos2) == toks.subrange(pos, mid) + toks.subrange(mid, pos2),
{
    assert(toks.subrange(pos, pos2) =~= toks.subrange(pos, mid) + toks.subrange(mid, pos2));
}

/// The one-token segment at `pos`.
proof fn lemma_segment_single(toks: Seq<TokenView>, pos: int)
    requires
        0 <= pos < toks.len(),
    ensures
        toks.subrange(pos, pos + 1) == seq![toks[pos]],
{
    assert(toks.subrange(pos, pos + 1) =~= seq![toks[pos]]);
}

/// The empty segment at `pos`.
proof fn lemma_segment_empty(toks: Seq<TokenView>, pos: int)
    requires
        0 <= pos <= toks.len(),
    ensures
        toks.subrange(pos, pos) == Seq::<TokenView>::empty(),
        balanced_segment(toks.subrange(pos, pos)),
{
    assert(toks.subrange(pos, pos) =~= Seq::<TokenView>::empty());
}


/// A parsed number's segment is one bracket-free token.
proof fn lemma_number_balanced(toks: Seq<TokenView>, pos: int)
    ensures
        spec_parse_number(toks, pos) matches Ok(res) ==> {
            &&& 0 <= pos < res.1 <= toks.len()
            &&& balanced_segment(toks.subrange(pos, res.1))
        },
{
    match spec_parse_number(toks, pos) {
        Ok(res) => {
            lemma_segment_single(toks, pos);
            lemma_single_neutral(toks[pos]);
        },
        Err(_) => {},
    }
}

/// A parsed string's segment is one bracket-free token.
proof fn lemma_string_balanced(toks: Seq<TokenView>, pos: int)
    ensures
        spec_parse_string(toks, pos) matches Ok(res) ==> {
            &&& 0 <= pos < res.1 <= toks.len()
            &&& balanced_segment(toks.subrange(pos, res.1))
        },
{
    match spec_parse_string(toks, pos) {
        Ok(res) => {
            lemma_segment_single(toks, pos);
            lemma_single_neutral(toks[pos]);
        },
        Err(_) => {},
    }
}

/// A parenthesized expression's segment is balanced: its own brackets
/// enclose a balanced expression.
proof fn lemma_grouped_balanced(toks: Seq<TokenView>, pos: int)
    requires
        peek_token(toks, pos) matches Option::Some(TokenView::LeftRoundBracket),
    ensures
        spec_parse_grouped_expression(toks, pos) matches Ok(res) ==> {
            &&& 0 <= pos < res.1 <= toks.len()
            &&& balanced_segment(toks.subrange(pos, res.1))
        },
    decreases toks.len() - pos, 0int,
{
    lemma_expression_balanced(toks, pos + 1);
    match spec_parse_expression(toks, pos + 1) {
        Ok((inner, pos1)) => {
            if peek_token(toks, pos1) matches Option::Some(TokenView::RightRoundBracket) {
                let opening = toks.subrange(pos, pos + 1);
                let middle = toks.subrange(pos + 1, pos1);
                let closing = toks.subrange(pos1, pos1 + 1);
                lemma_segment_single(toks, pos);
                lemma_segment_single(toks, pos1);
                lemma_single_token(toks[pos]);
                lemma_single_token(toks[pos1]);
                lemma_segment_split(toks, pos + 1, pos1, pos1 + 1);
                lemma_sums_concat(middle, closing);
                lemma_segment_split(toks, pos, pos + 1, pos1 + 1);
                lemma_sums_concat(opening, middle + closing);
            }
        },
        Err(_) => {},
    }
}

/// A one-or-more argument list's segment closes its caller's `(` and is
/// otherwise balanced.
proof fn lemma_argument_list_balanced(toks: Seq<TokenView>, pos: int)
    ensures
        spec_parse_argument_list(toks, pos) matches Ok(res) ==> {
            &&& 0 <= pos < res.1 <= toks.len()
            &&& closing_list_segment(toks.subrange(pos, res.1))
        },
    decreases toks.len() - pos, 6int,
{
    lemma_expression_balanced(toks, pos);
    match spec_parse_expression(toks, pos) {
        Ok((argument, pos1)) => {
            match peek_token(toks, pos1) {
                Option::Some(TokenView::Comma) => {
                    if made_progress(pos, pos1, toks) {
                        lemma_argument_list_balanced(toks, pos1 + 1);
                        match spec_parse_argument_list(toks, pos1 + 1) {
                            Ok((rest, pos2)) => {
                                let head = toks.subrange(pos, pos1);
                                let comma = toks.subrange(pos1, pos1 + 1);
                                let tail = toks.subrange(pos1 + 1, pos2);
                                lemma_segment_single(toks, pos1);
                                lemma_single_token(toks[pos1]);
                                lemma_segment_split(toks, pos1, pos1 + 1, pos2);
                                lemma_sums_concat(comma, tail);
                                lemma_segment_split(toks, pos, pos1, pos2);
                                lemma_sums_concat(head, comma + tail);
                            },
                            Err(_) => {},
                        }
                    }
                },
                Option::Some(TokenView::RightRoundBracket) => {
                    let head = toks.subrange(pos, pos1);
                    let closing = toks.subrange(pos1, pos1 + 1);
                    lemma_segment_single(toks, pos1);
                    lemma_single_token(toks[pos1]);
                    lemma_segment_split(toks, pos, pos1, pos1 + 1);
                    lemma_sums_concat(head, closing);
                },
                _ => {},
            }
        },
        Err(_) => {},
    }
}

/// A call's argument-list segment, `(` included, is balanced.
proof fn lemma_call_arguments_balanced(toks: Seq<TokenView>, pos: int)
    requires
        peek_token(toks, pos) matches Option::Some(TokenView::LeftRoundBracket),
    ensures
        spec_parse_call_arguments(toks, pos) matches Ok(res) ==> {
            &&& 0 <= pos < res.1 <= toks.len()
            &&& balanced_segment(toks.subrange(pos, res.1))
        },
    decreases toks.len() - pos, 7int,
{
    if peek_token(toks, pos + 1) matches Option::Some(TokenView::RightRoundBracket) {
        let opening = toks.subrange(pos, pos + 1);
        let closing = toks.subrange(pos + 1, pos + 2);
        lemma_segment_single(toks, pos);
        lemma_segment_single(toks, pos + 1);
        lemma_single_token(toks[pos]);
        lemma_single_token(toks[pos + 1]);
        lemma_segment_split(toks, pos, pos + 1, pos + 2);
        lemma_sums_concat(opening, closing);
    } else {
        lemma_argument_list_balanced(toks, pos + 1);
        match spec_parse_argument_list(toks, pos + 1) {
            Ok((arguments, pos2)) => {
                let opening = toks.subrange(pos, pos + 1);
                let rest = toks.subrange(pos + 1, pos2);
                lemma_segment_single(toks, pos);
                lemma_single_token(toks[pos]);
                lemma_segment_split(toks, pos, pos + 1, pos2);
                lemma_sums_concat(opening, rest);
            },
            Err(_) => {},
        }
    }
}

/// An identifier-or-call segment is balanced.
proof fn lemma_ident_or_call_balanced(toks: Seq<TokenView>, pos: int)
    ensures
        spec_parse_identifier_or_function_call(toks, pos) matches Ok(res) ==> {
            &&& 0 <= pos < res.1 <= toks.len()
            &&& balanced_segment(toks.subrange(pos, res.1))
        },
    decreases toks.len() - pos, 0int,
{
    match peek_token(toks, pos) {
        Option::Some(TokenView::Identifier(name)) => {
            if peek_token(toks, pos + 1) matches Option::Some(TokenView::LeftRoundBracket) {
                lemma_call_arguments_balanced(toks, pos + 1);
                match spec_parse_call_arguments(toks, pos + 1) {
                    Ok((arguments, pos2)) => {
                        let head = toks.subrange(pos, pos + 1);
                        let rest = toks.subrange(pos + 1, pos2);
                        lemma_segment_single(toks, pos);
                        lemma_single_neutral(toks[pos]);
                        lemma_segment_split(toks, pos, pos + 1, pos2);
                        lemma_balanced_concat(head, rest);
                    },
                    Err(_) => {},
                }
            } else {
                lemma_segment_single(toks, pos);
                lemma_single_neutral(toks[pos]);
            }
        },
        _ => {},
    }
}

/// A factor's segment is balanced.
proof fn lemma_factor_balanced(toks: Seq<TokenView>, pos: int)
    ensures
        spec_parse_factor(toks, pos) matches Ok(res) ==> {
            &&& 0 <= pos < res.1 <= toks.len()
            &&& balanced_segment(toks.subrange(pos, res.1))
        },
    decreases toks.len() - pos, 1int,
{
    match peek_token(toks, pos) {
        Option::Some(TokenView::Identifier(_)) => lemma_ident_or_call_balanced(toks, pos),
        Option::Some(TokenView::Number(_)) => lemma_number_balanced(toks, pos),
        Option::Some(TokenView::String(_)) => lemma_string_balanced(toks, pos),
        Option::Some(TokenView::LeftRoundBracket) => lemma_grouped_balanced(toks, pos),
        _ => {},
    }
}

/// The fold of an expression tier extends a balanced segment by operator
/// and operand, both balanced.
proof fn lemma_term_rest_balanced(toks: Seq<TokenView>, left: ExprView, pos: int)
    requires
        0 <= pos <= toks.len(),
    ensures
        spec_parse_term_rest(toks, left, pos) matches Ok(res) ==> {
            &&& pos <= res.1 <= toks.len()
            &&& balanced_segment(toks.subrange(pos, res.1))
        },
    decreases toks.len() - pos, 2int,
{
    let next = peek_token(toks, pos);
    if next matches Option::Some(TokenView::Times) || next matches Option::Some(
        TokenView::Divide,
    ) {
        lemma_factor_balanced(toks, pos + 1);
        match spec_parse_factor(toks, pos + 1) {
            Ok((right, pos2)) => {
                if made_progress(pos, pos2, toks) {
                    let folded = crate::parser::fold_binary(
                        if next matches Option::Some(TokenView::Times) {
                            crate::ast::BinaryOperator::Multiplication
                        } else {
                            crate::ast::BinaryOperator::Division
                        },
                        left,
                        right,
                    );
                    lemma_term_rest_balanced(toks, folded, pos2);
                    match spec_parse_term_rest(toks, folded, pos2) {
                        Ok((more, pos3)) => {
                            let operator = toks.subrange(pos, pos + 1);
                            let operand = toks.subrange(pos + 1, pos2);
                            let rest = toks.subrange(pos2, pos3);
                            lemma_segment_single(toks, pos);
                            lemma_single_neutral(toks[pos]);
                            lemma_segment_split(toks, pos + 1, pos2, pos3);
                            lemma_balanced_concat(operand, rest);
                            lemma_segment_split(toks, pos, pos + 1, pos3);
                            lemma_balanced_concat(operator, operand + rest);
                        },
                        Err(_) => {},
                    }
                }
            },
            Err(_) => {},
        }
    } else {
        lemma_segment_empty(toks, pos);
    }
}

/// The multiplication tier's segment is balanced.
proof fn lemma_term_balanced(toks: Seq<TokenView>, pos: int)
    ensures
        spec_parse_term(toks, pos) matches Ok(res) ==> {
            &&& 0 <= pos < res.1 <= toks.len()
            &&& balanced_segment(toks.subrange(pos, res.1))
        },
    decreases toks.len() - pos, 2int,
{
    lemma_factor_balanced(toks, pos);
    match spec_parse_factor(toks, pos) {
        Ok((left, pos1)) => {
            if made_progress(pos, pos1, toks) {
                lemma_term_rest_balanced(toks, left, pos1);
                match spec_parse_term_rest(toks, left, pos1) {
                    Ok((folded, pos2)) => {
                        lemma_segment_split(toks, pos, pos1, pos2);
                        lemma_balanced_concat(
                            toks.subrange(pos, pos1),
                            toks.subrange(pos1, pos2),
                        );
                    },
                    Err(_) => {},
                }
            }
        },
        Err(_) => {},
    }
}

/// The fold of the addition tier keeps its segment balanced.
proof fn lemma_comparison_operand_rest_balanced(toks: Seq<TokenView>, left: ExprView, pos: int)
    requires
        0 <= pos <= toks.len(),
    ensures
        spec_parse_comparison_operand_rest(toks, left, pos) matches Ok(res) ==> {
            &&& pos <= res.1 <= toks.len()
            &&& balanced_segment(toks.subrange(pos, res.1))
        },
    decreases toks.len() - pos, 3int,
{
    let next = peek_token(toks, pos);
    if next matches Option::Some(TokenView::Add) || next matches Option::Some(TokenView::Minus) {
        lemma_term_balanced(toks, pos + 1);
        match spec_parse_term(toks, pos + 1) {
            Ok((right, pos2)) => {
                if made_progress(pos, pos2, toks) {
                    let folded = crate::parser::fold_binary(
                        if next matches Option::Some(TokenView::Add) {
                            crate::ast::BinaryOperator::Addition
                        } else {
                            crate::ast::BinaryOperator::Subtraction
                        },
                        left,
                        right,
                    );
                    lemma_comparison_operand_rest_balanced(toks, folded, pos2);
                    match spec_parse_comparison_operand_rest(toks, folded, pos2) {
                        Ok((more, pos3)) => {
                            let operator = toks.subrange(pos, pos + 1);
                            let operand = toks.subrange(pos + 1, pos2);
                            let rest = toks.subrange(pos2, pos3);
                            lemma_segment_single(toks, pos);
                            lemma_single_neutral(toks[pos]);
                            lemma_segment_split(toks, pos + 1, pos2, pos3);
                            lemma_balanced_concat(operand, rest);
                            lemma_segment_split(toks, pos, pos + 1, pos3);
                            lemma_balanced_concat(operator, operand + rest);
                        },
                        Err(_) => {},
                    }
                }
            },
            Err(_) => {},
        }
    } else {
        lemma_segment_empty(toks, pos);
    }
}

/// The addition tier's segment is balanced.
proof fn lemma_comparison_operand_balanced(toks: Seq<TokenView>, pos: int)
    ensures
        spec_parse_comparison_operand(toks, pos) matches Ok(res) ==> {
            &&& 0 <= pos < res.1 <= toks.len()
            &&& balanced_segment(toks.subrange(pos, res.1))
        },
    decreases toks.len() - pos, 3int,
{
    lemma_term_balanced(toks, pos);
    match spec_parse_term(toks, pos) {
        Ok((left, pos1)) => {
            if made_progress(pos, pos1, toks) {
                lemma_comparison_operand_rest_balanced(toks, left, pos1);
                match spec_parse_comparison_operand_rest(toks, left, pos1) {
                    Ok((folded, pos2)) => {
                        lemma_segment_split(toks, pos, pos1, pos2);
                        lemma_balanced_concat(
                            toks.subrange(pos, pos1),
                            toks.subrange(pos1, pos2),
                        );
                    },
                    Err(_) => {},
                }
            }
        },
        Err(_) => {},
    }
}

/// The fold of the equality tier keeps its segment balanced.
proof fn lemma_assignment_operand_rest_balanced(toks: Seq<TokenView>, left: ExprView, pos: int)
    requires
        0 <= pos <= toks.len(),
    ensures
        spec_parse_assignment_operand_rest(toks, left, pos) matches Ok(res) ==> {
            &&& pos <= res.1 <= toks.len()
            &&& balanced_segment(toks.subrange(pos, res.1))
        },
    decreases toks.len() - pos, 4int,
{
    let next = peek_token(toks, pos);
    if next matches Option::Some(TokenView::Equal) || next matches Option::Some(
        TokenView::NotEqual,
    ) {
        lemma_comparison_operand_balanced(toks, pos + 1);
        match spec_parse_comparison_operand(toks, pos + 1) {
            Ok((right, pos2)) => {
                if made_progress(pos, pos2, toks) {
                    let folded = crate::parser::fold_binary(
                        if next matches Option::Some(TokenView::Equal) {
                            crate::ast::BinaryOperator::Equal
                        } else {
                            crate::ast::BinaryOperator::NotEqual
                        },
                        left,
                        right,
                    );
                    lemma_assignment_operand_rest_balanced(toks, folded, pos2);
                    match spec_parse_assignment_operand_rest(toks, folded, pos2) {
                        Ok((more, pos3)) => {
                            let operator = toks.subrange(pos, pos + 1);
                            let operand = toks.subrange(pos + 1, pos2);
                            let rest = toks.subrange(pos2, pos3);
                            lemma_segment_single(toks, pos);
                            lemma_single_neutral(toks[pos]);
                            lemma_segment_split(toks, pos + 1, pos2, pos3);
                            lemma_balanced_concat(operand, rest);
                            lemma_segment_split(toks, pos, pos + 1, pos3);
                            lemma_balanced_concat(operator, operand + rest);
                        },
                        Err(_) => {},
                    }
                }
            },
            Err(_) => {},
        }
    } else {
        lemma_segment_empty(toks, pos);
    }
}

/// The equality tier's segment is balanced.
proof fn lemma_assignment_operand_balanced(toks: Seq<TokenView>, pos: int)
    ensures
        spec_parse_assignment_operand(toks, pos) matches Ok(res) ==> {
            &&& 0 <= pos < res.1 <= toks.len()
            &&& balanced_segment(toks.subrange(pos, res.1))
        },
    decreases toks.len() - pos, 4int,
{
    lemma_comparison_operand_balanced(toks, pos);
    match spec_parse_comparison_operand(toks, pos) {
        Ok((left, pos1)) => {
            if made_progress(pos, pos1, toks) {
                lemma_assignment_operand_rest_balanced(toks, left, pos1);
                match spec_parse_assignment_operand_rest(toks, left, pos1) {
                    Ok((folded, pos2)) => {
                        lemma_segment_split(toks, pos, pos1, pos2);
                        lemma_balanced_concat(
                            toks.subrange(pos, pos1),
                            toks.subrange(pos1, pos2),
                        );
                    },
                    Err(_) => {},
                }
            }
        },
        Err(_) => {},
    }
}

/// The fold of the assignment tier keeps its segment balanced.
proof fn lemma_expression_rest_balanced(toks: Seq<TokenView>, left: ExprView, pos: int)
    requires
        0 <= pos <= toks.len(),
    ensures
        spec_parse_expression_rest(toks, left, pos) matches Ok(res) ==> {
            &&& pos <= res.1 <= toks.len()
            &&& balanced_segment(toks.subrange(pos, res.1))
        },
    decreases toks.len() - pos, 5int,
{
    if peek_token(toks, pos) matches Option::Some(TokenView::Assign) {
        lemma_assignment_operand_balanced(toks, pos + 1);
        match spec_parse_assignment_operand(toks, pos + 1) {
            Ok((right, pos2)) => {
                if made_progress(pos, pos2, toks) {
                    let folded = crate::parser::fold_binary(
                        crate::ast::BinaryOperator::Assign,
                        left,
                        right,
                    );
                    lemma_expression_rest_balanced(toks, folded, pos2);
                    match spec_parse_expression_rest(toks, folded, pos2) {
                        Ok((more, pos3)) => {
                            let operator = toks.subrange(pos, pos + 1);
                            let operand = toks.subrange(pos + 1, pos2);
                            let rest = toks.subrange(pos2, pos3);
                            lemma_segment_single(toks, pos);
                            lemma_single_neutral(toks[pos]);
                            lemma_segment_split(toks, pos + 1, pos2, pos3);
                            lemma_balanced_concat(operand, rest);
                            lemma_segment_split(toks, pos, pos + 1, pos3);
                            lemma_balanced_concat(operator, operand + rest);
                        },
                        Err(_) => {},
                    }
                }
            },
            Err(_) => {},
        }
    } else {
        lemma_segment_empty(toks, pos);
    }
}

/// An expression's segment is balanced.
proof fn lemma_expression_balanced(toks: Seq<TokenView>, pos: int)
    ensures
        spec_parse_expression(toks, pos) matches Ok(res) ==> {
            &&& 0 <= pos < res.1 <= toks.len()
            &&& balanced_segment(toks.subrange(pos, res.1))
        },
    decreases toks.len() - pos, 5int,
{
    lemma_assignment_operand_balanced(toks, pos);
    match spec_parse_assignment_operand(toks, pos) {
        Ok((left, pos1)) => {
            if made_progress(pos, pos1, toks) {
                lemma_expression_rest_balanced(toks, left, pos1);
                match spec_parse_expression_rest(toks, left, pos1) {
                    Ok((folded, pos2)) => {
                        lemma_segment_split(toks, pos, pos1, pos2);
                        lemma_balanced_concat(
                            toks.subrange(pos, pos1),
                            toks.subrange(pos1, pos2),
                        );
                    },
                    Err(_) => {},
                }
            }
        },
        Err(_) => {},
    }
}


/// An optional `: IDENT` segment holds no brackets.
proof fn lemma_optional_type_balanced(toks: Seq<TokenView>, pos: int)
    requires
        0 <= pos <= toks.len(),
    ensures
        spec_parse_optional_type(toks, pos) matches Ok(res) ==> {
            &&& pos <= res.1 <= toks.len()
            &&& balanced_segment(toks.subrange(pos, res.1))
        },
{
    if peek_token(toks, pos) matches Option::Some(TokenView::VariableTypeIndicator) {
        match peek_token(toks, pos + 1) {
            Option::Some(TokenView::Identifier(name)) => {
                lemma_segment_single(toks, pos);
                lemma_segment_single(toks, pos + 1);
                lemma_single_neutral(toks[pos]);
                lemma_single_neutral(toks[pos + 1]);
                lemma_segment_split(toks, pos, pos + 1, pos + 2);
                lemma_balanced_concat(
                    toks.subrange(pos, pos + 1),
                    toks.subrange(pos + 1, pos + 2),
                );
            },
            _ => {},
        }
    } else {
        lemma_segment_empty(toks, pos);
    }
}

/// An optional `-> IDENT` segment holds no brackets.
proof fn lemma_optional_return_type_balanced(toks: Seq<TokenView>, pos: int)
    requires
        0 <= pos <= toks.len(),
    ensures
        spec_parse_optional_return_type(toks, pos) matches Ok(res) ==> {
            &&& pos <= res.1 <= toks.len()
            &&& balanced_segment(toks.subrange(pos, res.1))
        },
{
    if peek_token(toks, pos) matches Option::Some(TokenView::ReturnTypeIndicator) {
        match peek_token(toks, pos + 1) {
            Option::Some(TokenView::Identifier(name)) => {
                lemma_segment_single(toks, pos);
                lemma_segment_single(toks, pos + 1);
                lemma_single_neutral(toks[pos]);
                lemma_single_neutral(toks[pos + 1]);
                lemma_segment_split(toks, pos, pos + 1, pos + 2);
                lemma_balanced_concat(
                    toks.subrange(pos, pos + 1),
                    toks.subrange(pos + 1, pos + 2),
                );
            },
            _ => {},
        }
    } else {
        lemma_segment_empty(toks, pos);
    }
}

/// A parameter's segment holds no brackets.
proof fn lemma_parameter_balanced(toks: Seq<TokenView>, pos: int)
    ensures
        spec_parse_function_parameter(toks, pos) matches Ok(res) ==> {
            &&& 0 <= pos < res.1 <= toks.len()
            &&& balanced_segment(toks.subrange(pos, res.1))
        },
{
    match peek_token(toks, pos) {
        Option::Some(TokenView::Identifier(name)) => {
            lemma_optional_type_balanced(toks, pos + 1);
            match spec_parse_optional_type(toks, pos + 1) {
                Ok((declared_type, pos2)) => {
                    lemma_segment_single(toks, pos);
                    lemma_single_neutral(toks[pos]);
                    lemma_segment_split(toks, pos, pos + 1, pos2);
                    lemma_balanced_concat(
                        toks.subrange(pos, pos + 1),
                        toks.subrange(pos + 1, pos2),
                    );
                },
                Err(_) => {},
            }
        },
        _ => {},
    }
}

/// A one-or-more parameter list's segment closes its caller's `(` and is
/// otherwise balanced.
proof fn lemma_parameters_nonempty_balanced(toks: Seq<TokenView>, pos: int)
    ensures
        spec_parse_parameters_nonempty(toks, pos) matches Ok(res) ==> {
            &&& 0 <= pos < res.1 <= toks.len()
            &&& closing_list_segment(toks.subrange(pos, res.1))
        },
    decreases toks.len() - pos, 7int,
{
    lemma_parameter_balanced(toks, pos);
    match spec_parse_function_parameter(toks, pos) {
        Ok((parameter, pos1)) => {
            match peek_token(toks, pos1) {
                Option::Some(TokenView::Comma) => {
                    if made_progress(pos, pos1, toks) {
                        lemma_parameters_nonempty_balanced(toks, pos1 + 1);
                        match spec_parse_parameters_nonempty(toks, pos1 + 1) {
                            Ok((rest, pos2)) => {
                                let head = toks.subrange(pos, pos1);
                                let comma = toks.subrange(pos1, pos1 + 1);
                                let tail = toks.subrange(pos1 + 1, pos2);
                                lemma_segment_single(toks, pos1);
                                lemma_single_token(toks[pos1]);
                                lemma_segment_split(toks, pos1, pos1 + 1, pos2);
                                lemma_sums_concat(comma, tail);
                                lemma_segment_split(toks, pos, pos1, pos2);
                                lemma_sums_concat(head, comma + tail);
                            },
                            Err(_) => {},
                        }
                    }
                },
                Option::Some(TokenView::RightRoundBracket) => {
                    let head = toks.subrange(pos, pos1);
                    let closing = toks.subrange(pos1, pos1 + 1);
                    lemma_segment_single(toks, pos1);
                    lemma_single_token(toks[pos1]);
                    lemma_segment_split(toks, pos, pos1, pos1 + 1);
                    lemma_sums_concat(head, closing);
                },
                _ => {},
            }
        },
        Err(_) => {},
    }
}

/// A parameter list's segment, `)` included, closes its caller's `(`.
proof fn lemma_parameter_list_balanced(toks: Seq<TokenView>, pos: int)
    ensures
        spec_parse_parameter_list(toks, pos) matches Ok(res) ==> {
            &&& 0 <= pos < res.1 <= toks.len()
            &&& closing_list_segment(toks.subrange(pos, res.1))
        },
    decreases toks.len() - pos, 8int,
{
    match peek_token(toks, pos) {
        Option::Some(TokenView::RightRoundBracket) => {
            lemma_segment_single(toks, pos);
            lemma_single_token(toks[pos]);
        },
        Option::Some(TokenView::Identifier(_)) => {
            lemma_parameters_nonempty_balanced(toks, pos);
        },
        _ => {},
    }
}

/// A function's parameter-list segment, brackets included, is balanced.
proof fn lemma_function_parameters_balanced(toks: Seq<TokenView>, pos: int)
    ensures
        spec_parse_function_parameters(toks, pos) matches Ok(res) ==> {
            &&& 0 <= pos < res.1 <= toks.len()
            &&& balanced_segment(toks.subrange(pos, res.1))
        },
    decreases toks.len() - pos, 9int,
{
    match peek_token(toks, pos) {
        Option::Some(TokenView::LeftRoundBracket) => {
            lemma_parameter_list_balanced(toks, pos + 1);
            match spec_parse_parameter_list(toks, pos + 1) {
                Ok((parameters, pos2)) => {
                    let opening = toks.subrange(pos, pos + 1);
                    let rest = toks.subrange(pos + 1, pos2);
                    lemma_segment_single(toks, pos);
                    lemma_single_token(toks[pos]);
                    lemma_segment_split(toks, pos, pos + 1, pos2);
                    lemma_sums_concat(opening, rest);
                },
                Err(_) => {},
            }
        },
        _ => {},
    }
}

/// The end of a variable definition is bracket-balanced: `;`, or `=`, a
/// balanced expression and `;`.
proof fn lemma_var_def_after_type_balanced(
    toks: Seq<TokenView>,
    identifier: Seq<char>,
    declared_type: Option<Seq<char>>,
    pos: int,
)
    ensures
        spec_parse_var_def_after_type(toks, identifier, declared_type, pos) matches Ok(res) ==> {
            &&& 0 <= pos < res.1 <= toks.len()
            &&& balanced_segment(toks.subrange(pos, res.1))
        },
    decreases toks.len() - pos, 6int,
{
    match peek_token(toks, pos) {
        Option::Some(TokenView::EndOfStatement) => {
            lemma_segment_single(toks, pos);
            lemma_single_neutral(toks[pos]);
        },
        Option::Some(TokenView::Assign) => {
            lemma_expression_balanced(toks, pos + 1);
            match spec_parse_expression(toks, pos + 1) {
                Ok((value, pos1)) => {
                    if peek_token(toks, pos1) matches Option::Some(TokenView::EndOfStatement) {
                        let assign = toks.subrange(pos, pos + 1);
                        let value_seg = toks.subrange(pos + 1, pos1);
                        let semi = toks.subrange(pos1, pos1 + 1);
                        lemma_segment_single(toks, pos);
                        lemma_segment_single(toks, pos1);
                        lemma_single_neutral(toks[pos]);
                        lemma_single_neutral(toks[pos1]);
                        lemma_segment_split(toks, pos + 1, pos1, pos1 + 1);
                        lemma_balanced_concat(value_seg, semi);
                        lemma_segment_split(toks, pos, pos + 1, pos1 + 1);
                        lemma_balanced_concat(assign, value_seg + semi);
                    }
                },
                Err(_) => {},
            }
        },
        _ => {},
    }
}

/// A variable definition's segment is bracket-balanced.
proof fn lemma_variable_definition_balanced(toks: Seq<TokenView>, pos: int)
    requires
        peek_token(toks, pos) matches Option::Some(TokenView::Variable),
    ensures
        spec_parse_variable_definition(toks, pos) matches Ok(res) ==> {
            &&& 0 <= pos < res.1 <= toks.len()
            &&& balanced_segment(toks.subrange(pos, res.1))
        },
    decreases toks.len() - pos, 10int,
{
    match peek_token(toks, pos + 1) {
        Option::Some(TokenView::Identifier(identifier)) => {
            lemma_optional_type_balanced(toks, pos + 2);
            match spec_parse_optional_type(toks, pos + 2) {
                Ok((declared_type, pos3)) => {
                    lemma_var_def_after_type_balanced(toks, identifier, declared_type, pos3);
                    match spec_parse_var_def_after_type(toks, identifier, declared_type, pos3) {
                        Ok((statement, pos4)) => {
                            let keyword = toks.subrange(pos, pos + 1);
                            let name = toks.subrange(pos + 1, pos + 2);
                            let annotation = toks.subrange(pos + 2, pos3);
                            let tail = toks.subrange(pos3, pos4);
                            lemma_segment_single(toks, pos);
                            lemma_segment_single(toks, pos + 1);
                            lemma_single_neutral(toks[pos]);
                            lemma_single_neutral(toks[pos + 1]);
                            lemma_segment_split(toks, pos + 2, pos3, pos4);
                            lemma_balanced_concat(annotation, tail);
                            lemma_segment_split(toks, pos + 1, pos + 2, pos4);
                            lemma_balanced_concat(name, annotation + tail);
                            lemma_segment_split(toks, pos, pos + 1, pos4);
                            lemma_balanced_concat(keyword, name + (annotation + tail));
                        },
                        Err(_) => {},
                    }
                },
                Err(_) => {},
            }
        },
        _ => {},
    }
}

/// A return statement's segment is bracket-balanced.
proof fn lemma_return_statement_balanced(toks: Seq<TokenView>, pos: int)
    requires
        peek_token(toks, pos) matches Option::Some(TokenView::Return),
    ensures
        spec_parse_return_statement(toks, pos) matches Ok(res) ==> {
            &&& 0 <= pos < res.1 <= toks.len()
            &&& balanced_segment(toks.subrange(pos, res.1))
        },
    decreases toks.len() - pos, 10int,
{
    lemma_expression_balanced(toks, pos + 1);
    match spec_parse_expression(toks, pos + 1) {
        Ok((expression, pos1)) => {
            if peek_token(toks, pos1) matches Option::Some(TokenView::EndOfStatement) {
                let keyword = toks.subrange(pos, pos + 1);
                let value_seg = toks.subrange(pos + 1, pos1);
                let semi = toks.subrange(pos1, pos1 + 1);
                lemma_segment_single(toks, pos);
                lemma_segment_single(toks, pos1);
                lemma_single_neutral(toks[pos]);
                lemma_single_neutral(toks[pos1]);
                lemma_segment_split(toks, pos + 1, pos1, pos1 + 1);
                lemma_balanced_concat(value_seg, semi);
                lemma_segment_split(toks, pos, pos + 1, pos1 + 1);
                lemma_balanced_concat(keyword, value_seg + semi);
            }
        },
        Err(_) => {},
    }
}

/// An expression statement's segment is bracket-balanced.
proof fn lemma_expression_statement_balanced(toks: Seq<TokenView>, pos: int)
    ensures
        spec_parse_expression_statement(toks, pos) matches Ok(res) ==> {
            &&& 0 <= pos < res.1 <= toks.len()
            &&& balanced_segment(toks.subrange(pos, res.1))
        },
    decreases toks.len() - pos, 6int,
{
    lemma_expression_balanced(toks, pos);
    match spec_parse_expression(toks, pos) {
        Ok((expression, pos1)) => {
            if peek_token(toks, pos1) matches Option::Some(TokenView::EndOfStatement) {
                let value_seg = toks.subrange(pos, pos1);
                let semi = toks.subrange(pos1, pos1 + 1);
                lemma_segment_single(toks, pos1);
                lemma_single_neutral(toks[pos1]);
                lemma_segment_split(toks, pos, pos1, pos1 + 1);
                lemma_balanced_concat(value_seg, semi);
            }
        },
        Err(_) => {},
    }
}

/// The statements before a closing `}` form a bracket-balanced segment, and
/// the closing `}` stands at its end.
proof fn lemma_stmts_until_close_balanced(toks: Seq<TokenView>, pos: int)
    ensures
        spec_parse_stmts_until_close(toks, pos) matches Ok(res) ==> {
            &&& 0 <= pos <= res.1 <= toks.len()
            &&& balanced_segment(toks.subrange(pos, res.1))
            &&& peek_token(toks, res.1) matches Option::Some(TokenView::RightCurlyBracket)
        },
    decreases toks.len() - pos, 12int,
{
    match peek_token(toks, pos) {
        Option::None => {},
        Option::Some(TokenView::RightCurlyBracket) => {
            lemma_segment_empty(toks, pos);
        },
        Option::Some(_) => {
            lemma_statement_balanced(toks, pos);
            match spec_parse_statement(toks, pos) {
                Ok((statement, pos1)) => {
                    if made_progress(pos, pos1, toks) {
                        lemma_stmts_until_close_balanced(toks, pos1);
                        match spec_parse_stmts_until_close(toks, pos1) {
                            Ok((rest, pos2)) => {
                                lemma_segment_split(toks, pos, pos1, pos2);
                                lemma_balanced_concat(
                                    toks.subrange(pos, pos1),
                                    toks.subrange(pos1, pos2),
                                );
                            },
                            Err(_) => {},
                        }
                    }
                },
                Err(_) => {},
            }
        },
    }
}

/// A block statement's segment, braces included, is bracket-balanced.
proof fn lemma_block_statement_balanced(toks: Seq<TokenView>, pos: int)
    requires
        peek_token(toks, pos) matches Option::Some(TokenView::LeftCurlyBracket),
    ensures
        spec_parse_block_statement(toks, pos) matches Ok(res) ==> {
            &&& 0 <= pos < res.1 <= toks.len()
            &&& balanced_segment(toks.subrange(pos, res.1))
        },
    decreases toks.len() - pos, 10int,
{
    lemma_stmts_until_close_balanced(toks, pos + 1);
    match spec_parse_stmts_until_close(toks, pos + 1) {
        Ok((statements, pos1)) => {
            let opening = toks.subrange(pos, pos + 1);
            let middle = toks.subrange(pos + 1, pos1);
            let closing = toks.subrange(pos1, pos1 + 1);
            lemma_segment_single(toks, pos);
            lemma_segment_single(toks, pos1);
            lemma_single_token(toks[pos]);
            lemma_single_token(toks[pos1]);
            lemma_segment_split(toks, pos + 1, pos1, pos1 + 1);
            lemma_sums_concat(middle, closing);
            lemma_segment_split(toks, pos, pos + 1, pos1 + 1);
            lemma_sums_concat(opening, middle + closing);
        },
        Err(_) => {},
    }
}

/// A function body's segment, braces included, is bracket-balanced.
proof fn lemma_function_body_balanced(toks: Seq<TokenView>, pos: int)
    ensures
        spec_parse_function_body(toks, pos) matches Ok(res) ==> {
            &&& 0 <= pos < res.1 <= toks.len()
            &&& balanced_segment(toks.subrange(pos, res.1))
        },
    decreases toks.len() - pos, 10int,
{
    match peek_token(toks, pos) {
        Option::Some(TokenView::LeftCurlyBracket) => {
            lemma_stmts_until_close_balanced(toks, pos + 1);
            match spec_parse_stmts_until_close(toks, pos + 1) {
                Ok((statements, pos1)) => {
                    let opening = toks.subrange(pos, pos + 1);
                    let middle = toks.subrange(pos + 1, pos1);
                    let closing = toks.subrange(pos1, pos1 + 1);
                    lemma_segment_single(toks, pos);
                    lemma_segment_single(toks, pos1);
                    lemma_single_token(toks[pos]);
                    lemma_single_token(toks[pos1]);
                    lemma_segment_split(toks, pos + 1, pos1, pos1 + 1);
                    lemma_sums_concat(middle, closing);
                    lemma_segment_split(toks, pos, pos + 1, pos1 + 1);
                    lemma_sums_concat(opening, middle + closing);
                },
                Err(_) => {},
            }
        },
        _ => {},
    }
}

/// A function definition's segment is bracket-balanced.
proof fn lemma_function_definition_balanced(toks: Seq<TokenView>, pos: int)
    requires
        peek_token(toks, pos) matches Option::Some(TokenView::Function),
    ensures
        spec_parse_function_definition(toks, pos) matches Ok(res) ==> {
            &&& 0 <= pos < res.1 <= toks.len()
            &&& balanced_segment(toks.subrange(pos, res.1))
        },
    decreases toks.len() - pos, 10int,
{
    match peek_token(toks, pos + 1) {
        Option::Some(TokenView::Identifier(callee_name)) => {
            lemma_function_parameters_balanced(toks, pos + 2);
            match spec_parse_function_parameters(toks, pos + 2) {
                Ok((parameters, pos3)) => {
                    lemma_optional_return_type_balanced(toks, pos3);
                    match spec_parse_optional_return_type(toks, pos3) {
                        Ok((return_type, pos4)) => {
                            if made_progress(pos, pos4, toks) {
                                lemma_function_body_balanced(toks, pos4);
                                match spec_parse_function_body(toks, pos4) {
                                    Ok((statements, pos5)) => {
                                        let keyword = toks.subrange(pos, pos + 1);
                                        let name = toks.subrange(pos + 1, pos + 2);
                                        let params = toks.subrange(pos + 2, pos3);
                                        let annotation = toks.subrange(pos3, pos4);
                                        let body = toks.subrange(pos4, pos5);
                                        lemma_segment_single(toks, pos);
                                        lemma_segment_single(toks, pos + 1);
                                        lemma_single_neutral(toks[pos]);
                                        lemma_single_neutral(toks[pos + 1]);
                                        lemma_segment_split(toks, pos3, pos4, pos5);
                                        lemma_balanced_concat(annotation, body);
                                        lemma_segment_split(toks, pos + 2, pos3, pos5);
                                        lemma_balanced_concat(params, annotation + body);
                                        lemma_segment_split(toks, pos + 1, pos + 2, pos5);
                                        lemma_balanced_concat(name, params + (annotation + body));
                                        lemma_segment_split(toks, pos, pos + 1, pos5);
                                        lemma_balanced_concat(
                                            keyword,
                                            name + (params + (annotation + body)),
                                        );
                                    },
                                    Err(_) => {},
                                }
                            }
                        },
                        Err(_) => {},
                    }
                },
                Err(_) => {},
            }
        },
        _ => {},
    }
}

/// A statement's segment is bracket-balanced.
proof fn lemma_statement_balanced(toks: Seq<TokenView>, pos: int)
    ensures
        spec_parse_statement(toks, pos) matches Ok(res) ==> {
            &&& 0 <= pos < res.1 <= toks.len()
            &&& balanced_segment(toks.subrange(pos, res.1))
        },
    decreases toks.len() - pos, 11int,
{
    match peek_token(toks, pos) {
        Option::Some(TokenView::LeftCurlyBracket) => lemma_block_statement_balanced(toks, pos),
        Option::Some(TokenView::Variable) => lemma_variable_definition_balanced(toks, pos),
        Option::Some(TokenView::Function) => lemma_function_definition_balanced(toks, pos),
        Option::Some(TokenView::Return) => lemma_return_statement_balanced(toks, pos),
        _ => lemma_expression_statement_balanced(toks, pos),
    }
}

/// The top-level statements before the end-of-program token form a
/// bracket-balanced segment.
proof fn lemma_stmts_until_end_balanced(toks: Seq<TokenView>, pos: int)
    ensures
        spec_parse_stmts_until_end(toks, pos) matches Ok(res) ==> {
            &&& 0 <= pos <= res.1 <= toks.len()
            &&& balanced_segment(toks.subrange(pos, res.1))
        },
    decreases toks.len() - pos, 12int,
{
    if peek_token(toks, pos) matches Option::Some(TokenView::EndOfProgram) {
        lemma_segment_empty(toks, pos);
    } else {
        lemma_statement_balanced(toks, pos);
        match spec_parse_statement(toks, pos) {
            Ok((statement, pos1)) => {
                if made_progress(pos, pos1, toks) {
                    lemma_stmts_until_end_balanced(toks, pos1);
                    match spec_parse_stmts_until_end(toks, pos1) {
                        Ok((rest, pos2)) => {
                            lemma_segment_split(toks, pos, pos1, pos2);
                            lemma_balanced_concat(
                                toks.subrange(pos, pos1),
                                toks.subrange(pos1, pos2),
                            );
                        },
                        Err(_) => {},
                    }
                }
            },
            Err(_) => {},
        }
    }
}

/// Every successful parse confirms bracket balance: over the tokens the
/// program consumed, each `(` is matched by `)` and each `{` by `}`.
pub proof fn lemma_parse_confirms_balance(toks: Seq<TokenView>, pos: int)
    ensures
        spec_parse_program(toks, pos) matches Ok(res) ==> {
            &&& 0 <= pos <= res.1 <= toks.len()
            &&& balanced_segment(toks.subrange(pos, res.1))
        },
{
    lemma_stmts_until_end_balanced(toks, pos);
}

} // verus!
