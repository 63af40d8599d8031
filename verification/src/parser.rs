//! A predictive recursive-descent parser over a token stream, with one token
//! of lookahead. The grammar, its precedence tiers and its error points are
//! written down as spec functions ([`spec_parse_program`] and the functions
//! it reaches); every exec method is proved to return exactly what they say.

use vstd::prelude::*;

use crate::ast::{
    expr_seq_view, stmt_seq_view, BinaryOperator, ExprView, Expression, ParamView, Parameter,
    Program, ProgramView, Statement, StmtView,
};
use crate::stream::Stream;
use crate::token::{Token, TokenView};

verus! {

/// Syntax errors: each names what the parser expected at the offending
/// token.
#[derive(Clone, Copy, Debug, PartialEq, Eq, Structural)]
pub enum ParseError {
    /// An identifier was expected: after `var` or `func`, as a parameter
    /// name, or as a type name after `:` or `->`.
    ExpectedIdentifier,
    /// An expression was expected: a factor must start with `(`, an
    /// identifier, a number or a string literal.
    ExpectedExpression,
    /// The statement must end with `;`.
    ExpectedEndOfStatement,
    /// After `var IDENT` and an optional type, either `=` or `;` must
    /// follow.
    ExpectedAssignOrEndOfStatement,
    /// A parenthesized expression must close with `)`.
    ExpectedRightRound,
    /// A parameter list must open with `(`.
    ExpectedLeftRound,
    /// A function body must open with `{`.
    ExpectedLeftCurly,
    /// Inside a brace-delimited statement sequence, a statement or `}` was
    /// expected and the tokens ran out.
    ExpectedStatementOrRightCurly,
    /// After an argument or a parameter, either `,` or `)` must follow.
    ExpectedCommaOrRightRound,
    /// A parameter list must hold parameters or close immediately.
    ExpectedParameterOrRightRound,
}

/// The token at `pos`, or `None` past the end of the sequence.
pub open spec fn peek_token(toks: Seq<TokenView>, pos: int) -> Option<TokenView> {
    if 0 <= pos < toks.len() {
        Option::Some(toks[pos])
    } else {
        Option::None
    }
}

/// A successful parse starting at `pos0` always leaves the position past
/// `pos0` and within the sequence. Recursion in the spec parser is guarded
/// on it; the exec parser proves the guard holds wherever it recurses.
pub open spec fn made_progress(pos0: int, pos1: int, toks: Seq<TokenView>) -> bool {
    pos0 < pos1 <= toks.len()
}

/// Prefixes already-parsed items onto the items of a later parse.
pub open spec fn parse_prepend<T>(
    prefix: Seq<T>,
    r: Result<(Seq<T>, int), ParseError>,
) -> Result<(Seq<T>, int), ParseError> {
    match r {
        Ok((items, pos)) => Ok((prefix + items, pos)),
        Err(e) => Err(e),
    }
}

/// A numeric literal: the factor dispatch guarantees a number here.
pub open spec fn spec_parse_number(toks: Seq<TokenView>, pos: int) -> Result<
    (ExprView, int),
    ParseError,
> {
    match peek_token(toks, pos) {
        Option::Some(TokenView::Number(num)) => Ok((ExprView::Number(num), pos + 1)),
        _ => Err(ParseError::ExpectedExpression),
    }
}

/// A string literal: the factor dispatch guarantees a string here.
pub open spec fn spec_parse_string(toks: Seq<TokenView>, pos: int) -> Result<
    (ExprView, int),
    ParseError,
> {
    match peek_token(toks, pos) {
        Option::Some(TokenView::String(text)) => Ok((ExprView::String(text), pos + 1)),
        _ => Err(ParseError::ExpectedExpression),
    }
}

/// `( expr )`: a parenthesized expression, entered at the `(`.
pub open spec fn spec_parse_grouped_expression(toks: Seq<TokenView>, pos: int) -> Result<
    (ExprView, int),
    ParseError,
>
    decreases toks.len() - pos, 0int,
{
    match peek_token(toks, pos) {
        Option::None => Err(ParseError::ExpectedExpression),
        Option::Some(_) => match spec_parse_expression(toks, pos + 1) {
            Ok((inner, pos1)) => match peek_token(toks, pos1) {
                Option::Some(TokenView::RightRoundBracket) => Ok((inner, pos1 + 1)),
                _ => Err(ParseError::ExpectedRightRound),
            },
            Err(e) => Err(e),
        },
    }
}

/// `IDENT` or `IDENT ( args )`: an identifier, or a call when `(` follows.
pub open spec fn spec_parse_identifier_or_function_call(toks: Seq<TokenView>, pos: int) -> Result<
    (ExprView, int),
    ParseError,
>
    decreases toks.len() - pos, 0int,
{
    match peek_token(toks, pos) {
        Option::Some(TokenView::Identifier(name)) => {
            if peek_token(toks, pos + 1) matches Option::Some(TokenView::LeftRoundBracket) {
                match spec_parse_call_arguments(toks, pos + 1) {
                    Ok((arguments, pos2)) => Ok(
                        (ExprView::FunctionCall { callee_name: name, arguments }, pos2),
                    ),
                    Err(e) => Err(e),
                }
            } else {
                Ok((ExprView::Identifier(name), pos + 1))
            }
        },
        _ => Err(ParseError::ExpectedIdentifier),
    }
}

/// `( )` or `( expr (, expr)* )`: a call's argument list, entered at the
/// `(`.
pub open spec fn spec_parse_call_arguments(toks: Seq<TokenView>, pos: int) -> Result<
    (Seq<ExprView>, int),
    ParseError,
>
    decreases toks.len() - pos, 7int,
{
    match peek_token(toks, pos) {
        Option::None => Err(ParseError::ExpectedExpression),
        Option::Some(_) => {
            if peek_token(toks, pos + 1) matches Option::Some(TokenView::RightRoundBracket) {
                Ok((Seq::empty(), pos + 2))
            } else {
                spec_parse_argument_list(toks, pos + 1)
            }
        },
    }
}

/// `expr (, expr)* )`: one or more comma-separated arguments and the
/// closing `)`.
pub open spec fn spec_parse_argument_list(toks: Seq<TokenView>, pos: int) -> Result<
    (Seq<ExprView>, int),
    ParseError,
>
    decreases toks.len() - pos, 6int,
{
    match spec_parse_expression(toks, pos) {
        Ok((argument, pos1)) => match peek_token(toks, pos1) {
            Option::Some(TokenView::Comma) => if made_progress(pos, pos1, toks) {
                match spec_parse_argument_list(toks, pos1 + 1) {
                    Ok((rest, pos2)) => Ok((seq![argument] + rest, pos2)),
                    Err(e) => Err(e),
                }
            } else {
                // never taken: a parsed expression advances the position
                Err(ParseError::ExpectedExpression)
            },
            Option::Some(TokenView::RightRoundBracket) => Ok((seq![argument], pos1 + 1)),
            _ => Err(ParseError::ExpectedCommaOrRightRound),
        },
        Err(e) => Err(e),
    }
}

/// A factor: a parenthesized expression, an identifier or call, a number,
/// or a string, selected on one token of lookahead.
pub open spec fn spec_parse_factor(toks: Seq<TokenView>, pos: int) -> Result<
    (ExprView, int),
    ParseError,
>
    decreases toks.len() - pos, 1int,
{
    match peek_token(toks, pos) {
        Option::Some(TokenView::Identifier(_)) => spec_parse_identifier_or_function_call(
            toks,
            pos,
        ),
        Option::Some(TokenView::Number(_)) => spec_parse_number(toks, pos),
        Option::Some(TokenView::String(_)) => spec_parse_string(toks, pos),
        Option::Some(TokenView::LeftRoundBracket) => spec_parse_grouped_expression(toks, pos),
        _ => Err(ParseError::ExpectedExpression),
    }
}

/// Folds a binary tier: wraps the accumulated left operand and the operand
/// just parsed, keeping the tree left-associative.
pub open spec fn fold_binary(operator: BinaryOperator, left: ExprView, right: ExprView) -> ExprView {
    ExprView::BinaryOperation {
        operator,
        operand_left: Box::new(left),
        operand_right: Box::new(right),
    }
}

/// `factor (('*' | '/') factor)*`: multiplication tier.
pub open spec fn spec_parse_term(toks: Seq<TokenView>, pos: int) -> Result<
    (ExprView, int),
    ParseError,
>
    decreases toks.len() - pos, 2int,
{
    match spec_parse_factor(toks, pos) {
        Ok((left, pos1)) => if made_progress(pos, pos1, toks) {
            spec_parse_term_rest(toks, left, pos1)
        } else {
            // never taken: a parsed factor advances the position
            Err(ParseError::ExpectedExpression)
        },
        Err(e) => Err(e),
    }
}

/// The fold of the multiplication tier, entered after the first factor.
pub open spec fn spec_parse_term_rest(toks: Seq<TokenView>, left: ExprView, pos: int) -> Result<
    (ExprView, int),
    ParseError,
>
    decreases toks.len() - pos, 2int,
{
    let next = peek_token(toks, pos);
    if next matches Option::Some(TokenView::Times) || next matches Option::Some(TokenView::Divide) {
        let operator = if next matches Option::Some(TokenView::Times) {
            BinaryOperator::Multiplication
        } else {
            BinaryOperator::Division
        };
        match spec_parse_factor(toks, pos + 1) {
            Ok((right, pos2)) => if made_progress(pos, pos2, toks) {
                spec_parse_term_rest(toks, fold_binary(operator, left, right), pos2)
            } else {
                // never taken: a parsed factor advances the position
                Err(ParseError::ExpectedExpression)
            },
            Err(e) => Err(e),
        }
    } else {
        Ok((left, pos))
    }
}

/// `term (('+' | '-') term)*`: addition tier.
pub open spec fn spec_parse_comparison_operand(toks: Seq<TokenView>, pos: int) -> Result<
    (ExprView, int),
    ParseError,
>
    decreases toks.len() - pos, 3int,
{
    match spec_parse_term(toks, pos) {
        Ok((left, pos1)) => if made_progress(pos, pos1, toks) {
            spec_parse_comparison_operand_rest(toks, left, pos1)
        } else {
            // never taken: a parsed term advances the position
            Err(ParseError::ExpectedExpression)
        },
        Err(e) => Err(e),
    }
}

/// The fold of the addition tier, entered after the first term.
pub open spec fn spec_parse_comparison_operand_rest(
    toks: Seq<TokenView>,
    left: ExprView,
    pos: int,
) -> Result<(ExprView, int), ParseError>
    decreases toks.len() - pos, 3int,
{
    let next = peek_token(toks, pos);
    if next matches Option::Some(TokenView::Add) || next matches Option::Some(TokenView::Minus) {
        let operator = if next matches Option::Some(TokenView::Add) {
            BinaryOperator::Addition
        } else {
            BinaryOperator::Subtraction
        };
        match spec_parse_term(toks, pos + 1) {
            Ok((right, pos2)) => if made_progress(pos, pos2, toks) {
                spec_parse_comparison_operand_rest(toks, fold_binary(operator, left, right), pos2)
            } else {
                // never taken: a parsed term advances the position
                Err(ParseError::ExpectedExpression)
            },
            Err(e) => Err(e),
        }
    } else {
        Ok((left, pos))
    }
}

/// `comp_operand (('==' | '!=') comp_operand)*`: equality tier.
pub open spec fn spec_parse_assignment_operand(toks: Seq<TokenView>, pos: int) -> Result<
    (ExprView, int),
    ParseError,
>
    decreases toks.len() - pos, 4int,
{
    match spec_parse_comparison_operand(toks, pos) {
        Ok((left, pos1)) => if made_progress(pos, pos1, toks) {
            spec_parse_assignment_operand_rest(toks, left, pos1)
        } else {
            // never taken: a parsed operand advances the position
            Err(ParseError::ExpectedExpression)
        },
        Err(e) => Err(e),
    }
}

/// The fold of the equality tier, entered after the first operand.
pub open spec fn spec_parse_assignment_operand_rest(
    toks: Seq<TokenView>,
    left: ExprView,
    pos: int,
) -> Result<(ExprView, int), ParseError>
    decreases toks.len() - pos, 4int,
{
    let next = peek_token(toks, pos);
    if next matches Option::Some(TokenView::Equal) || next matches Option::Some(
        TokenView::NotEqual,
    ) {
        let operator = if next matches Option::Some(TokenView::Equal) {
            BinaryOperator::Equal
        } else {
            BinaryOperator::NotEqual
        };
        match spec_parse_comparison_operand(toks, pos + 1) {
            Ok((right, pos2)) => if made_progress(pos, pos2, toks) {
                spec_parse_assignment_operand_rest(toks, fold_binary(operator, left, right), pos2)
            } else {
                // never taken: a parsed operand advances the position
                Err(ParseError::ExpectedExpression)
            },
            Err(e) => Err(e),
        }
    } else {
        Ok((left, pos))
    }
}

/// `assign_operand ('=' assign_operand)*`: the assignment tier, the whole
/// expression grammar. Repeated `=` folds left-associatively, like every
/// other tier.
pub open spec fn spec_parse_expression(toks: Seq<TokenView>, pos: int) -> Result<
    (ExprView, int),
    ParseError,
>
    decreases toks.len() - pos, 5int,
{
    match spec_parse_assignment_operand(toks, pos) {
        Ok((left, pos1)) => if made_progress(pos, pos1, toks) {
            spec_parse_expression_rest(toks, left, pos1)
        } else {
            // never taken: a parsed operand advances the position
            Err(ParseError::ExpectedExpression)
        },
        Err(e) => Err(e),
    }
}

/// The fold of the assignment tier, entered after the first operand.
pub open spec fn spec_parse_expression_rest(toks: Seq<TokenView>, left: ExprView, pos: int) -> Result<
    (ExprView, int),
    ParseError,
>
    decreases toks.len() - pos, 5int,
{
    if peek_token(toks, pos) matches Option::Some(TokenView::Assign) {
        match spec_parse_assignment_operand(toks, pos + 1) {
            Ok((right, pos2)) => if made_progress(pos, pos2, toks) {
                spec_parse_expression_rest(
                    toks,
                    fold_binary(BinaryOperator::Assign, left, right),
                    pos2,
                )
            } else {
                // never taken: a parsed operand advances the position
                Err(ParseError::ExpectedExpression)
            },
            Err(e) => Err(e),
        }
    } else {
        Ok((left, pos))
    }
}


/// `: IDENT` if present: the optional type annotation of a variable or a
/// parameter.
pub open spec fn spec_parse_optional_type(toks: Seq<TokenView>, pos: int) -> Result<
    (Option<Seq<char>>, int),
    ParseError,
> {
    if peek_token(toks, pos) matches Option::Some(TokenView::VariableTypeIndicator) {
        match peek_token(toks, pos + 1) {
            Option::Some(TokenView::Identifier(name)) => Ok((Option::Some(name), pos + 2)),
            _ => Err(ParseError::ExpectedIdentifier),
        }
    } else {
        Ok((Option::None, pos))
    }
}

/// `-> IDENT` if present: the optional return type of a function.
pub open spec fn spec_parse_optional_return_type(toks: Seq<TokenView>, pos: int) -> Result<
    (Option<Seq<char>>, int),
    ParseError,
> {
    if peek_token(toks, pos) matches Option::Some(TokenView::ReturnTypeIndicator) {
        match peek_token(toks, pos + 1) {
            Option::Some(TokenView::Identifier(name)) => Ok((Option::Some(name), pos + 2)),
            _ => Err(ParseError::ExpectedIdentifier),
        }
    } else {
        Ok((Option::None, pos))
    }
}

/// `IDENT (: IDENT)?`: one function parameter.
pub open spec fn spec_parse_function_parameter(toks: Seq<TokenView>, pos: int) -> Result<
    (ParamView, int),
    ParseError,
> {
    match peek_token(toks, pos) {
        Option::Some(TokenView::Identifier(name)) => match spec_parse_optional_type(
            toks,
            pos + 1,
        ) {
            Ok((declared_type, pos2)) => Ok((ParamView { name, declared_type }, pos2)),
            Err(e) => Err(e),
        },
        _ => Err(ParseError::ExpectedIdentifier),
    }
}

/// `param (, param)* )`: one or more parameters and the closing `)`. A
/// trailing comma is not accepted: after `,` a parameter must follow.
pub open spec fn spec_parse_parameters_nonempty(toks: Seq<TokenView>, pos: int) -> Result<
    (Seq<ParamView>, int),
    ParseError,
>
    decreases toks.len() - pos, 7int,
{
    match spec_parse_function_parameter(toks, pos) {
        Ok((parameter, pos1)) => match peek_token(toks, pos1) {
            Option::Some(TokenView::Comma) => if made_progress(pos, pos1, toks) {
                match spec_parse_parameters_nonempty(toks, pos1 + 1) {
                    Ok((rest, pos2)) => Ok((seq![parameter] + rest, pos2)),
                    Err(e) => Err(e),
                }
            } else {
                // never taken: a parsed parameter advances the position
                Err(ParseError::ExpectedIdentifier)
            },
            Option::Some(TokenView::RightRoundBracket) => Ok((seq![parameter], pos1 + 1)),
            _ => Err(ParseError::ExpectedCommaOrRightRound),
        },
        Err(e) => Err(e),
    }
}

/// `)` for an empty list, or one or more parameters and the closing `)`.
pub open spec fn spec_parse_parameter_list(toks: Seq<TokenView>, pos: int) -> Result<
    (Seq<ParamView>, int),
    ParseError,
>
    decreases toks.len() - pos, 8int,
{
    match peek_token(toks, pos) {
        Option::Some(TokenView::RightRoundBracket) => Ok((Seq::empty(), pos + 1)),
        Option::Some(TokenView::Identifier(_)) => spec_parse_parameters_nonempty(toks, pos),
        _ => Err(ParseError::ExpectedParameterOrRightRound),
    }
}

/// `( params? )`: a function's parameter list, entered at the `(`.
pub open spec fn spec_parse_function_parameters(toks: Seq<TokenView>, pos: int) -> Result<
    (Seq<ParamView>, int),
    ParseError,
>
    decreases toks.len() - pos, 9int,
{
    match peek_token(toks, pos) {
        Option::Some(TokenView::LeftRoundBracket) => spec_parse_parameter_list(toks, pos + 1),
        _ => Err(ParseError::ExpectedLeftRound),
    }
}

/// The end of a variable definition, after `var IDENT (: IDENT)?`: either
/// `;` with no initializer, or `= expr ;`.
pub open spec fn spec_parse_var_def_after_type(
    toks: Seq<TokenView>,
    identifier: Seq<char>,
    declared_type: Option<Seq<char>>,
    pos: int,
) -> Result<(StmtView, int), ParseError>
    decreases toks.len() - pos, 6int,
{
    match peek_token(toks, pos) {
        Option::Some(TokenView::EndOfStatement) => Ok(
            (
                StmtView::VariableDefinition { identifier, declared_type, value: Option::None },
                pos + 1,
            ),
        ),
        Option::Some(TokenView::Assign) => match spec_parse_expression(toks, pos + 1) {
            Ok((value, pos1)) => match peek_token(toks, pos1) {
                Option::Some(TokenView::EndOfStatement) => Ok(
                    (
                        StmtView::VariableDefinition {
                            identifier,
                            declared_type,
                            value: Option::Some(value),
                        },
                        pos1 + 1,
                    ),
                ),
                _ => Err(ParseError::ExpectedEndOfStatement),
            },
            Err(e) => Err(e),
        },
        _ => Err(ParseError::ExpectedAssignOrEndOfStatement),
    }
}

/// `var IDENT (: IDENT)? (; | = expr ;)`: a variable definition, entered at
/// the `var` keyword.
pub open spec fn spec_parse_variable_definition(toks: Seq<TokenView>, pos: int) -> Result<
    (StmtView, int),
    ParseError,
>
    decreases toks.len() - pos, 10int,
{
    match peek_token(toks, pos) {
        Option::None => Err(ParseError::ExpectedIdentifier),
        Option::Some(_) => match peek_token(toks, pos + 1) {
            Option::Some(TokenView::Identifier(identifier)) => match spec_parse_optional_type(
                toks,
                pos + 2,
            ) {
                Ok((declared_type, pos3)) => spec_parse_var_def_after_type(
                    toks,
                    identifier,
                    declared_type,
                    pos3,
                ),
                Err(e) => Err(e),
            },
            _ => Err(ParseError::ExpectedIdentifier),
        },
    }
}

/// `return expr ;`: a return statement, entered at the `return` keyword.
pub open spec fn spec_parse_return_statement(toks: Seq<TokenView>, pos: int) -> Result<
    (StmtView, int),
    ParseError,
>
    decreases toks.len() - pos, 10int,
{
    match peek_token(toks, pos) {
        Option::None => Err(ParseError::ExpectedExpression),
        Option::Some(_) => match spec_parse_expression(toks, pos + 1) {
            Ok((expression, pos1)) => match peek_token(toks, pos1) {
                Option::Some(TokenView::EndOfStatement) => Ok(
                    (StmtView::Return { expression }, pos1 + 1),
                ),
                _ => Err(ParseError::ExpectedEndOfStatement),
            },
            Err(e) => Err(e),
        },
    }
}

/// `expr ;`: an expression statement.
pub open spec fn spec_parse_expression_statement(toks: Seq<TokenView>, pos: int) -> Result<
    (StmtView, int),
    ParseError,
>
    decreases toks.len() - pos, 6int,
{
    match spec_parse_expression(toks, pos) {
        Ok((expression, pos1)) => match peek_token(toks, pos1) {
            Option::Some(TokenView::EndOfStatement) => Ok(
                (StmtView::Expression { expression }, pos1 + 1),
            ),
            _ => Err(ParseError::ExpectedEndOfStatement),
        },
        Err(e) => Err(e),
    }
}

/// Statements up to a closing `}`: the contents of a block or a function
/// body. The `}` is not consumed here.
pub open spec fn spec_parse_stmts_until_close(toks: Seq<TokenView>, pos: int) -> Result<
    (Seq<StmtView>, int),
    ParseError,
>
    decreases toks.len() - pos, 12int,
{
    match peek_token(toks, pos) {
        Option::None => Err(ParseError::ExpectedStatementOrRightCurly),
        Option::Some(TokenView::RightCurlyBracket) => Ok((Seq::empty(), pos)),
        Option::Some(_) => match spec_parse_statement(toks, pos) {
            Ok((statement, pos1)) => if made_progress(pos, pos1, toks) {
                match spec_parse_stmts_until_close(toks, pos1) {
                    Ok((rest, pos2)) => Ok((seq![statement] + rest, pos2)),
                    Err(e) => Err(e),
                }
            } else {
                // never taken: a parsed statement advances the position
                Err(ParseError::ExpectedStatementOrRightCurly)
            },
            Err(e) => Err(e),
        },
    }
}

/// `{ statement* }`: a block statement, entered at the `{`.
pub open spec fn spec_parse_block_statement(toks: Seq<TokenView>, pos: int) -> Result<
    (StmtView, int),
    ParseError,
>
    decreases toks.len() - pos, 10int,
{
    match peek_token(toks, pos) {
        Option::None => Err(ParseError::ExpectedStatementOrRightCurly),
        Option::Some(_) => match spec_parse_stmts_until_close(toks, pos + 1) {
            Ok((statements, pos1)) => Ok((StmtView::Block { statements }, pos1 + 1)),
            Err(e) => Err(e),
        },
    }
}

/// `{ statement* }`: a function's body, which must open with `{`.
pub open spec fn spec_parse_function_body(toks: Seq<TokenView>, pos: int) -> Result<
    (Seq<StmtView>, int),
    ParseError,
>
    decreases toks.len() - pos, 10int,
{
    match peek_token(toks, pos) {
        Option::Some(TokenView::LeftCurlyBracket) => match spec_parse_stmts_until_close(
            toks,
            pos + 1,
        ) {
            Ok((statements, pos1)) => Ok((statements, pos1 + 1)),
            Err(e) => Err(e),
        },
        _ => Err(ParseError::ExpectedLeftCurly),
    }
}

/// `func IDENT ( params? ) (-> IDENT)? { statement* }`: a function
/// definition, entered at the `func` keyword.
pub open spec fn spec_parse_function_definition(toks: Seq<TokenView>, pos: int) -> Result<
    (StmtView, int),
    ParseError,
>
    decreases toks.len() - pos, 10int,
{
    match peek_token(toks, pos) {
        Option::None => Err(ParseError::ExpectedIdentifier),
        Option::Some(_) => match peek_token(toks, pos + 1) {
            Option::Some(TokenView::Identifier(callee_name)) => match spec_parse_function_parameters(
                toks,
                pos + 2,
            ) {
                Ok((parameters, pos3)) => match spec_parse_optional_return_type(toks, pos3) {
                    Ok((return_type, pos4)) => if made_progress(pos, pos4, toks) {
                        match spec_parse_function_body(toks, pos4) {
                            Ok((statements, pos5)) => Ok(
                                (
                                    StmtView::FunctionDefinition {
                                        callee_name,
                                        parameters,
                                        return_type,
                                        statements,
                                    },
                                    pos5,
                                ),
                            ),
                            Err(e) => Err(e),
                        }
                    } else {
                        // never taken: a parsed parameter list advances the position
                        Err(ParseError::ExpectedLeftCurly)
                    },
                    Err(e) => Err(e),
                },
                Err(e) => Err(e),
            },
            _ => Err(ParseError::ExpectedIdentifier),
        },
    }
}

/// One statement, selected on one token of lookahead: `{` opens a block,
/// `var`, `func` and `return` open their statements, and anything else is
/// an expression statement.
pub open spec fn spec_parse_statement(toks: Seq<TokenView>, pos: int) -> Result<
    (StmtView, int),
    ParseError,
>
    decreases toks.len() - pos, 11int,
{
    match peek_token(toks, pos) {
        Option::Some(TokenView::LeftCurlyBracket) => spec_parse_block_statement(toks, pos),
        Option::Some(TokenView::Variable) => spec_parse_variable_definition(toks, pos),
        Option::Some(TokenView::Function) => spec_parse_function_definition(toks, pos),
        Option::Some(TokenView::Return) => spec_parse_return_statement(toks, pos),
        _ => spec_parse_expression_statement(toks, pos),
    }
}

/// Statements up to the end-of-program token, which is not consumed.
pub open spec fn spec_parse_stmts_until_end(toks: Seq<TokenView>, pos: int) -> Result<
    (Seq<StmtView>, int),
    ParseError,
>
    decreases toks.len() - pos, 12int,
{
    if peek_token(toks, pos) matches Option::Some(TokenView::EndOfProgram) {
        Ok((Seq::empty(), pos))
    } else {
        match spec_parse_statement(toks, pos) {
            Ok((statement, pos1)) => if made_progress(pos, pos1, toks) {
                match spec_parse_stmts_until_end(toks, pos1) {
                    Ok((rest, pos2)) => Ok((seq![statement] + rest, pos2)),
                    Err(e) => Err(e),
                }
            } else {
                // never taken: a parsed statement advances the position
                Err(ParseError::ExpectedExpression)
            },
            Err(e) => Err(e),
        }
    }
}

/// A whole program: top-level statements up to the end-of-program token.
pub open spec fn spec_parse_program(toks: Seq<TokenView>, pos: int) -> Result<
    (ProgramView, int),
    ParseError,
>
    decreases toks.len() - pos, 13int,
{
    match spec_parse_stmts_until_end(toks, pos) {
        Ok((statements, pos1)) => Ok((ProgramView { statements }, pos1)),
        Err(e) => Err(e),
    }
}

/// Consumes a token stream and produces a program syntax tree, enforcing
/// the grammar.
pub struct Parser {
    stream: Stream,
}

impl View for Parser {
    type V = crate::stream::StreamView;

    closed spec fn view(&self) -> crate::stream::StreamView {
        self.stream@
    }
}

impl Parser {
    /// Wraps a token stream for parsing.
    pub fn new(stream: Stream) -> (parser: Parser)
        ensures
            parser@ == stream@,
    {
        Parser { stream }
    }

    /// A numeric literal.
    fn parse_number(&mut self) -> (r: Result<Expression, ParseError>)
        ensures
            final(self)@.tokens == old(self)@.tokens,
            final(self)@.cursor >= old(self)@.cursor,
            match spec_parse_number(old(self)@.tokens, old(self)@.cursor) {
                Ok(res) => {
                    &&& r matches Ok(e) && e.deep_view() == res.0
                    &&& final(self)@.cursor == res.1
                    &&& old(self)@.cursor < res.1
                },
                Err(pe) => r == Err::<Expression, ParseError>(pe),
            },
    {
        match self.stream.consume() {
            Some(Token::Number(num)) => Ok(Expression::Number(num)),
            _ => Err(ParseError::ExpectedExpression),
        }
    }

    /// A string literal.
    fn parse_string(&mut self) -> (r: Result<Expression, ParseError>)
        ensures
            final(self)@.tokens == old(self)@.tokens,
            final(self)@.cursor >= old(self)@.cursor,
            match spec_parse_string(old(self)@.tokens, old(self)@.cursor) {
                Ok(res) => {
                    &&& r matches Ok(e) && e.deep_view() == res.0
                    &&& final(self)@.cursor == res.1
                    &&& old(self)@.cursor < res.1
                },
                Err(pe) => r == Err::<Expression, ParseError>(pe),
            },
    {
        match self.stream.consume() {
            Some(Token::String(text)) => Ok(Expression::String(text)),
            _ => Err(ParseError::ExpectedExpression),
        }
    }

    /// A parenthesized expression, entered at the `(`.
    fn parse_grouped_expression(&mut self) -> (r: Result<Expression, ParseError>)
        ensures
            final(self)@.tokens == old(self)@.tokens,
            final(self)@.cursor >= old(self)@.cursor,
            match spec_parse_grouped_expression(old(self)@.tokens, old(self)@.cursor) {
                Ok(res) => {
                    &&& r matches Ok(e) && e.deep_view() == res.0
                    &&& final(self)@.cursor == res.1
                    &&& old(self)@.cursor < res.1
                },
                Err(pe) => r == Err::<Expression, ParseError>(pe),
            },
        decreases self@.tokens.len() - self@.cursor, 0int,
    {
        if self.stream.peek().is_none() {
            return Err(ParseError::ExpectedExpression);
        }
        self.stream.consume();

        let expression = match self.parse_expression() {
            Ok(e) => e,
            Err(e) => return Err(e),
        };

        match self.stream.consume() {
            Some(Token::RightRoundBracket) => Ok(expression),
            _ => Err(ParseError::ExpectedRightRound),
        }
    }

    /// An identifier, or a function call when `(` follows it.
    fn parse_identifier_or_function_call(&mut self) -> (r: Result<Expression, ParseError>)
        ensures
            final(self)@.tokens == old(self)@.tokens,
            final(self)@.cursor >= old(self)@.cursor,
            match spec_parse_identifier_or_function_call(old(self)@.tokens, old(self)@.cursor) {
                Ok(res) => {
                    &&& r matches Ok(e) && e.deep_view() == res.0
                    &&& final(self)@.cursor == res.1
                    &&& old(self)@.cursor < res.1
                },
                Err(pe) => r == Err::<Expression, ParseError>(pe),
            },
        decreases self@.tokens.len() - self@.cursor, 0int,
    {
        let identifier = match self.stream.consume() {
            Some(Token::Identifier(id)) => id,
            _ => return Err(ParseError::ExpectedIdentifier),
        };

        match self.stream.peek() {
            Some(Token::LeftRoundBracket) => {
                let arguments = match self.parse_function_call_arguments() {
                    Ok(a) => a,
                    Err(e) => return Err(e),
                };
                Ok(Expression::FunctionCall { callee_name: identifier, arguments })
            },
            _ => Ok(Expression::Identifier(identifier)),
        }
    }

    /// A call's argument list, entered at the `(`: zero or more expressions
    /// separated by `,`, then `)`.
    fn parse_function_call_arguments(&mut self) -> (r: Result<Vec<Expression>, ParseError>)
        ensures
            final(self)@.tokens == old(self)@.tokens,
            final(self)@.cursor >= old(self)@.cursor,
            match spec_parse_call_arguments(old(self)@.tokens, old(self)@.cursor) {
                Ok(res) => {
                    &&& r matches Ok(es) && expr_seq_view(es@) == res.0
                    &&& final(self)@.cursor == res.1
                    &&& old(self)@.cursor < res.1
                },
                Err(pe) => r == Err::<Vec<Expression>, ParseError>(pe),
            },
        decreases self@.tokens.len() - self@.cursor, 7int,
    {
        let ghost toks = self@.tokens;
        let mut arguments: Vec<Expression> = Vec::new();

        if self.stream.peek().is_none() {
            return Err(ParseError::ExpectedExpression);
        }
        self.stream.consume();

        match self.stream.peek() {
            Some(Token::RightRoundBracket) => {
                self.stream.consume();
                proof {
                    assert(expr_seq_view(arguments@) =~= Seq::<ExprView>::empty());
                }
                return Ok(arguments);
            },
            _ => {},
        }

        proof {
            use_type_invariant(&self.stream);
            assert(expr_seq_view(arguments@) =~= Seq::<ExprView>::empty());
            match spec_parse_argument_list(toks, self@.cursor) {
                Ok((items, p)) => {
                    assert(Seq::<ExprView>::empty() + items =~= items);
                },
                Err(_) => {},
            }
        }

        loop
            invariant
                toks == old(self)@.tokens,
                self@.tokens == toks,
                old(self)@.cursor < self@.cursor <= toks.len(),
                spec_parse_call_arguments(toks, old(self)@.cursor) == parse_prepend(
                    expr_seq_view(arguments@),
                    spec_parse_argument_list(toks, self@.cursor),
                ),
            decreases toks.len() - self@.cursor,
        {
            let ghost here = self@.cursor;
            let ghost prefix = expr_seq_view(arguments@);
            let expression = match self.parse_expression() {
                Ok(e) => e,
                Err(e) => return Err(e),
            };
            let ghost ev = expression.deep_view();
            proof {
                use_type_invariant(&self.stream);
                crate::ast::lemma_expr_seq_view_push(arguments@, expression);
            }
            arguments.push(expression);

            match self.stream.peek() {
                Some(Token::Comma) => {
                    self.stream.consume();
                    proof {
                        let rest = spec_parse_argument_list(toks, self@.cursor);
                        match rest {
                            Ok((items, p)) => {
                                assert(prefix + (seq![ev] + items) =~= (prefix + seq![ev]) + items);
                            },
                            Err(_) => {},
                        }
                    }
                },
                Some(Token::RightRoundBracket) => {
                    self.stream.consume();
                    proof {
                        assert(prefix + seq![ev] =~= expr_seq_view(arguments@));
                    }
                    return Ok(arguments);
                },
                _ => {
                    return Err(ParseError::ExpectedCommaOrRightRound);
                },
            }
        }
    }

    /// A factor, selected on one token of lookahead.
    fn parse_factor(&mut self) -> (r: Result<Expression, ParseError>)
        ensures
            final(self)@.tokens == old(self)@.tokens,
            final(self)@.cursor >= old(self)@.cursor,
            match spec_parse_factor(old(self)@.tokens, old(self)@.cursor) {
                Ok(res) => {
                    &&& r matches Ok(e) && e.deep_view() == res.0
                    &&& final(self)@.cursor == res.1
                    &&& old(self)@.cursor < res.1
                },
                Err(pe) => r == Err::<Expression, ParseError>(pe),
            },
        decreases self@.tokens.len() - self@.cursor, 1int,
    {
        proof {
            use_type_invariant(&self.stream);
        }
        match self.stream.peek() {
            Some(Token::Identifier(_)) => self.parse_identifier_or_function_call(),
            Some(Token::Number(_)) => self.parse_number(),
            Some(Token::String(_)) => self.parse_string(),
            Some(Token::LeftRoundBracket) => self.parse_grouped_expression(),
            _ => Err(ParseError::ExpectedExpression),
        }
    }

    /// The multiplication tier: a factor, then a left-associative fold over
    /// `*` and `/`.
    fn parse_term(&mut self) -> (r: Result<Expression, ParseError>)
        ensures
            final(self)@.tokens == old(self)@.tokens,
            final(self)@.cursor >= old(self)@.cursor,
            match spec_parse_term(old(self)@.tokens, old(self)@.cursor) {
                Ok(res) => {
                    &&& r matches Ok(e) && e.deep_view() == res.0
                    &&& final(self)@.cursor == res.1
                    &&& old(self)@.cursor < res.1
                },
                Err(pe) => r == Err::<Expression, ParseError>(pe),
            },
        decreases self@.tokens.len() - self@.cursor, 2int,
    {
        let ghost toks = self@.tokens;
        let ghost pos0 = self@.cursor;

        let mut expression_left = match self.parse_factor() {
            Ok(e) => e,
            Err(e) => return Err(e),
        };
        proof {
            use_type_invariant(&self.stream);
        }

        loop
            invariant
                toks == old(self)@.tokens,
                pos0 == old(self)@.cursor,
                self@.tokens == toks,
                pos0 < self@.cursor <= toks.len(),
                spec_parse_term(toks, pos0) == spec_parse_term_rest(
                    toks,
                    expression_left.deep_view(),
                    self@.cursor,
                ),
            ensures
                self@.tokens == toks,
                pos0 < self@.cursor <= toks.len(),
                spec_parse_term(toks, pos0) == spec_parse_term_rest(
                    toks,
                    expression_left.deep_view(),
                    self@.cursor,
                ),
                !(peek_token(toks, self@.cursor) matches Option::Some(TokenView::Times)),
                !(peek_token(toks, self@.cursor) matches Option::Some(TokenView::Divide)),
            decreases toks.len() - self@.cursor,
        {
            let operator = match self.stream.peek() {
                Some(Token::Times) => BinaryOperator::Multiplication,
                Some(Token::Divide) => BinaryOperator::Division,
                _ => break,
            };
            self.stream.consume();

            let expression_right = match self.parse_factor() {
                Ok(e) => e,
                Err(e) => return Err(e),
            };
            proof {
                use_type_invariant(&self.stream);
            }

            expression_left = Expression::BinaryOperation {
                operator,
                operand_left: Box::new(expression_left),
                operand_right: Box::new(expression_right),
            };
        }

        Ok(expression_left)
    }

    /// The addition tier: a term, then a left-associative fold over `+`
    /// and `-`.
    fn parse_comparison_operand(&mut self) -> (r: Result<Expression, ParseError>)
        ensures
            final(self)@.tokens == old(self)@.tokens,
            final(self)@.cursor >= old(self)@.cursor,
            match spec_parse_comparison_operand(old(self)@.tokens, old(self)@.cursor) {
                Ok(res) => {
                    &&& r matches Ok(e) && e.deep_view() == res.0
                    &&& final(self)@.cursor == res.1
                    &&& old(self)@.cursor < res.1
                },
                Err(pe) => r == Err::<Expression, ParseError>(pe),
            },
        decreases self@.tokens.len() - self@.cursor, 3int,
    {
        let ghost toks = self@.tokens;
        let ghost pos0 = self@.cursor;

        let mut expression_left = match self.parse_term() {
            Ok(e) => e,
            Err(e) => return Err(e),
        };
        proof {
            use_type_invariant(&self.stream);
        }

        loop
            invariant
                toks == old(self)@.tokens,
                pos0 == old(self)@.cursor,
                self@.tokens == toks,
                pos0 < self@.cursor <= toks.len(),
                spec_parse_comparison_operand(toks, pos0) == spec_parse_comparison_operand_rest(
                    toks,
                    expression_left.deep_view(),
                    self@.cursor,
                ),
            ensures
                self@.tokens == toks,
                pos0 < self@.cursor <= toks.len(),
                spec_parse_comparison_operand(toks, pos0) == spec_parse_comparison_operand_rest(
                    toks,
                    expression_left.deep_view(),
                    self@.cursor,
                ),
                !(peek_token(toks, self@.cursor) matches Option::Some(TokenView::Add)),
                !(peek_token(toks, self@.cursor) matches Option::Some(TokenView::Minus)),
            decreases toks.len() - self@.cursor,
        {
            let operator = match self.stream.peek() {
                Some(Token::Add) => BinaryOperator::Addition,
                Some(Token::Minus) => BinaryOperator::Subtraction,
                _ => break,
            };
            self.stream.consume();

            let expression_right = match self.parse_term() {
                Ok(e) => e,
                Err(e) => return Err(e),
            };
            proof {
                use_type_invariant(&self.stream);
            }

            expression_left = Expression::BinaryOperation {
                operator,
                operand_left: Box::new(expression_left),
                operand_right: Box::new(expression_right),
            };
        }

        Ok(expression_left)
    }

    /// The equality tier: an operand, then a left-associative fold over
    /// `==` and `!=`.
    fn parse_assignment_operand(&mut self) -> (r: Result<Expression, ParseError>)
        ensures
            final(self)@.tokens == old(self)@.tokens,
            final(self)@.cursor >= old(self)@.cursor,
            match spec_parse_assignment_operand(old(self)@.tokens, old(self)@.cursor) {
                Ok(res) => {
                    &&& r matches Ok(e) && e.deep_view() == res.0
                    &&& final(self)@.cursor == res.1
                    &&& old(self)@.cursor < res.1
                },
                Err(pe) => r == Err::<Expression, ParseError>(pe),
            },
        decreases self@.tokens.len() - self@.cursor, 4int,
    {
        let ghost toks = self@.tokens;
        let ghost pos0 = self@.cursor;

        let mut expression_left = match self.parse_comparison_operand() {
            Ok(e) => e,
            Err(e) => return Err(e),
        };
        proof {
            use_type_invariant(&self.stream);
        }

        loop
            invariant
                toks == old(self)@.tokens,
                pos0 == old(self)@.cursor,
                self@.tokens == toks,
                pos0 < self@.cursor <= toks.len(),
                spec_parse_assignment_operand(toks, pos0) == spec_parse_assignment_operand_rest(
                    toks,
                    expression_left.deep_view(),
                    self@.cursor,
                ),
            ensures
                self@.tokens == toks,
                pos0 < self@.cursor <= toks.len(),
                spec_parse_assignment_operand(toks, pos0) == spec_parse_assignment_operand_rest(
                    toks,
                    expression_left.deep_view(),
                    self@.cursor,
                ),
                !(peek_token(toks, self@.cursor) matches Option::Some(TokenView::Equal)),
                !(peek_token(toks, self@.cursor) matches Option::Some(TokenView::NotEqual)),
            decreases toks.len() - self@.cursor,
        {
            let operator = match self.stream.peek() {
                Some(Token::Equal) => BinaryOperator::Equal,
                Some(Token::NotEqual) => BinaryOperator::NotEqual,
                _ => break,
            };
            self.stream.consume();

            let expression_right = match self.parse_comparison_operand() {
                Ok(e) => e,
                Err(e) => return Err(e),
            };
            proof {
                use_type_invariant(&self.stream);
            }

            expression_left = Expression::BinaryOperation {
                operator,
                operand_left: Box::new(expression_left),
                operand_right: Box::new(expression_right),
            };
        }

        Ok(expression_left)
    }

    /// The assignment tier: the whole expression grammar. Repeated `=`
    /// folds left-associatively, like every other tier.
    fn parse_expression(&mut self) -> (r: Result<Expression, ParseError>)
        ensures
            final(self)@.tokens == old(self)@.tokens,
            final(self)@.cursor >= old(self)@.cursor,
            match spec_parse_expression(old(self)@.tokens, old(self)@.cursor) {
                Ok(res) => {
                    &&& r matches Ok(e) && e.deep_view() == res.0
                    &&& final(self)@.cursor == res.1
                    &&& old(self)@.cursor < res.1
                },
                Err(pe) => r == Err::<Expression, ParseError>(pe),
            },
        decreases self@.tokens.len() - self@.cursor, 5int,
    {
        let ghost toks = self@.tokens;
        let ghost pos0 = self@.cursor;

        let mut expression_left = match self.parse_assignment_operand() {
            Ok(e) => e,
            Err(e) => return Err(e),
        };
        proof {
            use_type_invariant(&self.stream);
        }

        loop
            invariant
                toks == old(self)@.tokens,
                pos0 == old(self)@.cursor,
                self@.tokens == toks,
                pos0 < self@.cursor <= toks.len(),
                spec_parse_expression(toks, pos0) == spec_parse_expression_rest(
                    toks,
                    expression_left.deep_view(),
                    self@.cursor,
                ),
            ensures
                self@.tokens == toks,
                pos0 < self@.cursor <= toks.len(),
                spec_parse_expression(toks, pos0) == spec_parse_expression_rest(
                    toks,
                    expression_left.deep_view(),
                    self@.cursor,
                ),
                !(peek_token(toks, self@.cursor) matches Option::Some(TokenView::Assign)),
                !(peek_token(toks, self@.cursor) matches Option::Some(TokenView::Assign)),
            decreases toks.len() - self@.cursor,
        {
            match self.stream.peek() {
                Some(Token::Assign) => {},
                _ => break,
            }
            self.stream.consume();

            let expression_right = match self.parse_assignment_operand() {
                Ok(e) => e,
                Err(e) => return Err(e),
            };
            proof {
                use_type_invariant(&self.stream);
            }

            expression_left = Expression::BinaryOperation {
                operator: BinaryOperator::Assign,
                operand_left: Box::new(expression_left),
                operand_right: Box::new(expression_right),
            };
        }

        Ok(expression_left)
    }

    /// One function parameter: a name with an optional `: type`.
    fn parse_function_parameter(&mut self) -> (r: Result<Parameter, ParseError>)
        ensures
            final(self)@.tokens == old(self)@.tokens,
            final(self)@.cursor >= old(self)@.cursor,
            match spec_parse_function_parameter(old(self)@.tokens, old(self)@.cursor) {
                Ok(res) => {
                    &&& r matches Ok(p) && p.deep_view() == res.0
                    &&& final(self)@.cursor == res.1
                    &&& old(self)@.cursor < res.1
                },
                Err(pe) => r == Err::<Parameter, ParseError>(pe),
            },
    {
        let name = match self.stream.consume() {
            Some(Token::Identifier(id)) => id,
            _ => return Err(ParseError::ExpectedIdentifier),
        };

        let declared_type: Option<String> = match self.stream.peek() {
            Some(Token::VariableTypeIndicator) => {
                self.stream.consume();
                match self.stream.consume() {
                    Some(Token::Identifier(id)) => Some(id),
                    _ => return Err(ParseError::ExpectedIdentifier),
                }
            },
            _ => None,
        };

        Ok(Parameter { name, declared_type })
    }

    /// A function's parameter list, entered at the `(`: zero or more
    /// parameters separated by `,`, then `)`. A trailing comma is not
    /// accepted.
    fn parse_function_parameters(&mut self) -> (r: Result<Vec<Parameter>, ParseError>)
        ensures
            final(self)@.tokens == old(self)@.tokens,
            final(self)@.cursor >= old(self)@.cursor,
            match spec_parse_function_parameters(old(self)@.tokens, old(self)@.cursor) {
                Ok(res) => {
                    &&& r matches Ok(ps) && ps.deep_view() == res.0
                    &&& final(self)@.cursor == res.1
                    &&& old(self)@.cursor < res.1
                },
                Err(pe) => r == Err::<Vec<Parameter>, ParseError>(pe),
            },
    {
        let ghost toks = self@.tokens;
        let mut parameters: Vec<Parameter> = Vec::new();

        match self.stream.consume() {
            Some(Token::LeftRoundBracket) => {},
            _ => return Err(ParseError::ExpectedLeftRound),
        }

        match self.stream.peek() {
            Some(Token::RightRoundBracket) => {
                self.stream.consume();
                proof {
                    assert(parameters.deep_view() =~= Seq::<ParamView>::empty());
                }
                return Ok(parameters);
            },
            Some(Token::Identifier(_)) => {},
            _ => return Err(ParseError::ExpectedParameterOrRightRound),
        }

        proof {
            use_type_invariant(&self.stream);
            assert(parameters.deep_view() =~= Seq::<ParamView>::empty());
            match spec_parse_parameters_nonempty(toks, self@.cursor) {
                Ok((items, p)) => {
                    assert(Seq::<ParamView>::empty() + items =~= items);
                },
                Err(_) => {},
            }
        }

        loop
            invariant
                toks == old(self)@.tokens,
                self@.tokens == toks,
                old(self)@.cursor < self@.cursor <= toks.len(),
                spec_parse_function_parameters(toks, old(self)@.cursor) == parse_prepend(
                    parameters.deep_view(),
                    spec_parse_parameters_nonempty(toks, self@.cursor),
                ),
            decreases toks.len() - self@.cursor,
        {
            let ghost prefix = parameters.deep_view();
            let parameter = match self.parse_function_parameter() {
                Ok(p) => p,
                Err(e) => return Err(e),
            };
            let ghost pv = parameter.deep_view();
            proof {
                use_type_invariant(&self.stream);
                assert(parameters.deep_view().push(pv) =~= prefix + seq![pv]);
            }
            parameters.push(parameter);
            proof {
                assert(parameters.deep_view() =~= prefix + seq![pv]);
            }

            match self.stream.peek() {
                Some(Token::Comma) => {
                    self.stream.consume();
                    proof {
                        match spec_parse_parameters_nonempty(toks, self@.cursor) {
                            Ok((items, p)) => {
                                assert(prefix + (seq![pv] + items) =~= (prefix + seq![pv]) + items);
                            },
                            Err(_) => {},
                        }
                    }
                },
                Some(Token::RightRoundBracket) => {
                    self.stream.consume();
                    return Ok(parameters);
                },
                _ => {
                    return Err(ParseError::ExpectedCommaOrRightRound);
                },
            }
        }
    }

    /// A variable definition, entered at the `var` keyword.
    fn parse_variable_definition_statement(&mut self) -> (r: Result<Statement, ParseError>)
        ensures
            final(self)@.tokens == old(self)@.tokens,
            final(self)@.cursor >= old(self)@.cursor,
            match spec_parse_variable_definition(old(self)@.tokens, old(self)@.cursor) {
                Ok(res) => {
                    &&& r matches Ok(s) && s.deep_view() == res.0
                    &&& final(self)@.cursor == res.1
                    &&& old(self)@.cursor < res.1
                },
                Err(pe) => r == Err::<Statement, ParseError>(pe),
            },
        decreases self@.tokens.len() - self@.cursor, 10int,
    {
        self.stream.consume();

        let identifier = match self.stream.consume() {
            Some(Token::Identifier(id)) => id,
            _ => return Err(ParseError::ExpectedIdentifier),
        };

        let declared_type: Option<String> = if self.stream.match_token(
            Token::VariableTypeIndicator,
        ) {
            self.stream.consume();
            match self.stream.consume() {
                Some(Token::Identifier(id)) => Some(id),
                _ => return Err(ParseError::ExpectedIdentifier),
            }
        } else {
            None
        };

        if self.stream.match_token(Token::EndOfStatement) {
            self.stream.consume();
            return Ok(Statement::VariableDefinition { identifier, declared_type, value: None });
        }

        match self.stream.consume() {
            Some(Token::Assign) => {},
            _ => return Err(ParseError::ExpectedAssignOrEndOfStatement),
        }

        let value = match self.parse_expression() {
            Ok(e) => e,
            Err(e) => return Err(e),
        };

        match self.stream.consume() {
            Some(Token::EndOfStatement) => {},
            _ => return Err(ParseError::ExpectedEndOfStatement),
        }

        Ok(Statement::VariableDefinition { identifier, declared_type, value: Some(value) })
    }

    /// A return statement, entered at the `return` keyword.
    fn parse_return_statement(&mut self) -> (r: Result<Statement, ParseError>)
        ensures
            final(self)@.tokens == old(self)@.tokens,
            final(self)@.cursor >= old(self)@.cursor,
            match spec_parse_return_statement(old(self)@.tokens, old(self)@.cursor) {
                Ok(res) => {
                    &&& r matches Ok(s) && s.deep_view() == res.0
                    &&& final(self)@.cursor == res.1
                    &&& old(self)@.cursor < res.1
                },
                Err(pe) => r == Err::<Statement, ParseError>(pe),
            },
        decreases self@.tokens.len() - self@.cursor, 10int,
    {
        if self.stream.peek().is_none() {
            return Err(ParseError::ExpectedExpression);
        }
        self.stream.consume();

        let expression = match self.parse_expression() {
            Ok(e) => e,
            Err(e) => return Err(e),
        };

        match self.stream.consume() {
            Some(Token::EndOfStatement) => {},
            _ => return Err(ParseError::ExpectedEndOfStatement),
        }

        Ok(Statement::Return { expression })
    }

    /// An expression statement: an expression ended by `;`.
    fn parse_expression_statement(&mut self) -> (r: Result<Statement, ParseError>)
        ensures
            final(self)@.tokens == old(self)@.tokens,
            final(self)@.cursor >= old(self)@.cursor,
            match spec_parse_expression_statement(old(self)@.tokens, old(self)@.cursor) {
                Ok(res) => {
                    &&& r matches Ok(s) && s.deep_view() == res.0
                    &&& final(self)@.cursor == res.1
                    &&& old(self)@.cursor < res.1
                },
                Err(pe) => r == Err::<Statement, ParseError>(pe),
            },
        decreases self@.tokens.len() - self@.cursor, 6int,
    {
        let expression = match self.parse_expression() {
            Ok(e) => e,
            Err(e) => return Err(e),
        };

        match self.stream.consume() {
            Some(Token::EndOfStatement) => {},
            _ => return Err(ParseError::ExpectedEndOfStatement),
        }

        Ok(Statement::Expression { expression })
    }

    /// Statements up to a closing `}`, which is left unconsumed: the
    /// contents of a block or a function body.
    fn parse_statements_until_close(&mut self) -> (r: Result<Vec<Statement>, ParseError>)
        ensures
            final(self)@.tokens == old(self)@.tokens,
            final(self)@.cursor >= old(self)@.cursor,
            match spec_parse_stmts_until_close(old(self)@.tokens, old(self)@.cursor) {
                Ok(res) => {
                    &&& r matches Ok(ss) && stmt_seq_view(ss@) == res.0
                    &&& final(self)@.cursor == res.1
                    &&& peek_token(final(self)@.tokens, final(self)@.cursor) matches Option::Some(
                        TokenView::RightCurlyBracket,
                    )
                },
                Err(pe) => r == Err::<Vec<Statement>, ParseError>(pe),
            },
        decreases self@.tokens.len() - self@.cursor, 12int,
    {
        let ghost toks = self@.tokens;
        let mut statements: Vec<Statement> = Vec::new();

        proof {
            use_type_invariant(&self.stream);
            assert(stmt_seq_view(statements@) =~= Seq::<StmtView>::empty());
            match spec_parse_stmts_until_close(toks, self@.cursor) {
                Ok((items, p)) => {
                    assert(Seq::<StmtView>::empty() + items =~= items);
                },
                Err(_) => {},
            }
        }

        loop
            invariant
                toks == old(self)@.tokens,
                self@.tokens == toks,
                old(self)@.cursor <= self@.cursor <= toks.len(),
                spec_parse_stmts_until_close(toks, old(self)@.cursor) == parse_prepend(
                    stmt_seq_view(statements@),
                    spec_parse_stmts_until_close(toks, self@.cursor),
                ),
            ensures
                self@.tokens == toks,
                old(self)@.cursor <= self@.cursor <= toks.len(),
                spec_parse_stmts_until_close(toks, old(self)@.cursor) == parse_prepend(
                    stmt_seq_view(statements@),
                    spec_parse_stmts_until_close(toks, self@.cursor),
                ),
                peek_token(toks, self@.cursor) matches Option::Some(TokenView::RightCurlyBracket),
            decreases toks.len() - self@.cursor,
        {
            match self.stream.peek() {
                None => return Err(ParseError::ExpectedStatementOrRightCurly),
                Some(Token::RightCurlyBracket) => break,
                _ => {},
            }

            let ghost prefix = stmt_seq_view(statements@);
            let statement = match self.parse_statement() {
                Ok(s) => s,
                Err(e) => return Err(e),
            };
            let ghost sv = statement.deep_view();
            proof {
                use_type_invariant(&self.stream);
                crate::ast::lemma_stmt_seq_view_push(statements@, statement);
            }
            statements.push(statement);
            proof {
                match spec_parse_stmts_until_close(toks, self@.cursor) {
                    Ok((items, p)) => {
                        assert(prefix + (seq![sv] + items) =~= (prefix + seq![sv]) + items);
                    },
                    Err(_) => {},
                }
            }
        }

        Ok(statements)
    }

    /// A block statement, entered at the `{`.
    #[verifier::rlimit(60)]
    fn parse_block_statement(&mut self) -> (r: Result<Statement, ParseError>)
        ensures
            final(self)@.tokens == old(self)@.tokens,
            final(self)@.cursor >= old(self)@.cursor,
            match spec_parse_block_statement(old(self)@.tokens, old(self)@.cursor) {
                Ok(res) => {
                    &&& r matches Ok(s) && s.deep_view() == res.0
                    &&& final(self)@.cursor == res.1
                    &&& old(self)@.cursor < res.1
                },
                Err(pe) => r == Err::<Statement, ParseError>(pe),
            },
        decreases self@.tokens.len() - self@.cursor, 10int,
    {
        if self.stream.peek().is_none() {
            return Err(ParseError::ExpectedStatementOrRightCurly);
        }
        self.stream.consume();

        let statements = match self.parse_statements_until_close() {
            Ok(ss) => ss,
            Err(e) => return Err(e),
        };

        match self.stream.consume() {
            Some(Token::RightCurlyBracket) => {},
            _ => return Err(ParseError::ExpectedStatementOrRightCurly),
        }

        Ok(Statement::Block { statements })
    }

    /// A function's body: `{`, statements, `}`.
    #[verifier::rlimit(60)]
    fn parse_function_body(&mut self) -> (r: Result<Vec<Statement>, ParseError>)
        ensures
            final(self)@.tokens == old(self)@.tokens,
            final(self)@.cursor >= old(self)@.cursor,
            match spec_parse_function_body(old(self)@.tokens, old(self)@.cursor) {
                Ok(res) => {
                    &&& r matches Ok(ss) && stmt_seq_view(ss@) == res.0
                    &&& final(self)@.cursor == res.1
                    &&& old(self)@.cursor < res.1
                },
                Err(pe) => r == Err::<Vec<Statement>, ParseError>(pe),
            },
        decreases self@.tokens.len() - self@.cursor, 10int,
    {
        match self.stream.consume() {
            Some(Token::LeftCurlyBracket) => {},
            _ => return Err(ParseError::ExpectedLeftCurly),
        }

        let statements = match self.parse_statements_until_close() {
            Ok(ss) => ss,
            Err(e) => return Err(e),
        };

        match self.stream.consume() {
            Some(Token::RightCurlyBracket) => {},
            _ => return Err(ParseError::ExpectedLeftCurly),
        }

        Ok(statements)
    }

    /// A function definition, entered at the `func` keyword.
    #[verifier::rlimit(100)]
    fn parse_function_definition_statement(&mut self) -> (r: Result<Statement, ParseError>)
        ensures
            final(self)@.tokens == old(self)@.tokens,
            final(self)@.cursor >= old(self)@.cursor,
            match spec_parse_function_definition(old(self)@.tokens, old(self)@.cursor) {
                Ok(res) => {
                    &&& r matches Ok(s) && s.deep_view() == res.0
                    &&& final(self)@.cursor == res.1
                    &&& old(self)@.cursor < res.1
                },
                Err(pe) => r == Err::<Statement, ParseError>(pe),
            },
        decreases self@.tokens.len() - self@.cursor, 10int,
    {
        self.stream.consume();

        let callee_name = match self.stream.consume() {
            Some(Token::Identifier(id)) => id,
            _ => return Err(ParseError::ExpectedIdentifier),
        };

        let parameters = match self.parse_function_parameters() {
            Ok(ps) => ps,
            Err(e) => return Err(e),
        };

        let return_type: Option<String> = match self.stream.peek() {
            Some(Token::ReturnTypeIndicator) => {
                self.stream.consume();
                match self.stream.consume() {
                    Some(Token::Identifier(id)) => Some(id),
                    _ => return Err(ParseError::ExpectedIdentifier),
                }
            },
            _ => None,
        };
        proof {
            use_type_invariant(&self.stream);
        }

        let statements = match self.parse_function_body() {
            Ok(ss) => ss,
            Err(e) => return Err(e),
        };

        Ok(Statement::FunctionDefinition { callee_name, parameters, return_type, statements })
    }

    /// One statement, selected on one token of lookahead.
    fn parse_statement(&mut self) -> (r: Result<Statement, ParseError>)
        ensures
            final(self)@.tokens == old(self)@.tokens,
            final(self)@.cursor >= old(self)@.cursor,
            match spec_parse_statement(old(self)@.tokens, old(self)@.cursor) {
                Ok(res) => {
                    &&& r matches Ok(s) && s.deep_view() == res.0
                    &&& final(self)@.cursor == res.1
                    &&& old(self)@.cursor < res.1
                },
                Err(pe) => r == Err::<Statement, ParseError>(pe),
            },
        decreases self@.tokens.len() - self@.cursor, 11int,
    {
        proof {
            use_type_invariant(&self.stream);
        }
        match self.stream.peek() {
            Some(Token::LeftCurlyBracket) => self.parse_block_statement(),
            Some(Token::Variable) => self.parse_variable_definition_statement(),
            Some(Token::Function) => self.parse_function_definition_statement(),
            Some(Token::Return) => self.parse_return_statement(),
            _ => self.parse_expression_statement(),
        }
    }

    /// A whole program: top-level statements up to the end-of-program token,
    /// which is left unconsumed.
    #[verifier::rlimit(60)]
    pub fn parse_program(&mut self) -> (r: Result<Program, ParseError>)
        ensures
            final(self)@.tokens == old(self)@.tokens,
            final(self)@.cursor >= old(self)@.cursor,
            match spec_parse_program(old(self)@.tokens, old(self)@.cursor) {
                Ok(res) => {
                    &&& r matches Ok(p) && p.deep_view() == res.0
                    &&& final(self)@.cursor == res.1
                },
                Err(pe) => r == Err::<Program, ParseError>(pe),
            },
        decreases self@.tokens.len() - self@.cursor, 13int,
    {
        let ghost toks = self@.tokens;
        let mut statements: Vec<Statement> = Vec::new();

        proof {
            use_type_invariant(&self.stream);
            assert(stmt_seq_view(statements@) =~= Seq::<StmtView>::empty());
            match spec_parse_stmts_until_end(toks, self@.cursor) {
                Ok((items, p)) => {
                    assert(Seq::<StmtView>::empty() + items =~= items);
                },
                Err(_) => {},
            }
        }

        loop
            invariant
                toks == old(self)@.tokens,
                self@.tokens == toks,
                old(self)@.cursor <= self@.cursor <= toks.len(),
                spec_parse_stmts_until_end(toks, old(self)@.cursor) == parse_prepend(
                    stmt_seq_view(statements@),
                    spec_parse_stmts_until_end(toks, self@.cursor),
                ),
            ensures
                self@.tokens == toks,
                old(self)@.cursor <= self@.cursor <= toks.len(),
                spec_parse_stmts_until_end(toks, old(self)@.cursor) == parse_prepend(
                    stmt_seq_view(statements@),
                    spec_parse_stmts_until_end(toks, self@.cursor),
                ),
                peek_token(toks, self@.cursor) matches Option::Some(TokenView::EndOfProgram),
            decreases toks.len() - self@.cursor,
        {
            match self.stream.peek() {
                Some(Token::EndOfProgram) => break,
                _ => {},
            }

            let ghost prefix = stmt_seq_view(statements@);
            let statement = match self.parse_statement() {
                Ok(s) => s,
                Err(e) => return Err(e),
            };
            let ghost sv = statement.deep_view();
            proof {
                use_type_invariant(&self.stream);
                crate::ast::lemma_stmt_seq_view_push(statements@, statement);
            }
            statements.push(statement);
            proof {
                match spec_parse_stmts_until_end(toks, self@.cursor) {
                    Ok((items, p)) => {
                        assert(prefix + (seq![sv] + items) =~= (prefix + seq![sv]) + items);
                    },
                    Err(_) => {},
                }
            }
        }

        Ok(Program { statements })
    }
}

} // verus!
