use fang_frontend::ast::{BinaryOperator, Expression, Parameter, Program, Statement};
use fang_frontend::lexer::Tokenizer;
use fang_frontend::parser::{ParseError, Parser};
use fang_frontend::stream::Stream;
use fang_frontend::token::Token;

fn scan_and_parse_program(text: &str) -> Program {
    let mut tokenizer = Tokenizer::new();

    tokenizer.scan(text).unwrap();

    let stream = tokenizer.extract();
    let mut parser = Parser::new(stream);

    parser.parse_program().unwrap()
}

fn parse_error(text: &str) -> ParseError {
    let mut tokenizer = Tokenizer::new();

    tokenizer.scan(text).unwrap();

    let stream = tokenizer.extract();
    let mut parser = Parser::new(stream);

    parser.parse_program().unwrap_err()
}

#[test]
fn variable_definition() {
    let mut program: Program;

    program = scan_and_parse_program("var var_1;");
    assert_eq!(
        program,
        Program {
            statements: vec![Statement::VariableDefinition {
                identifier: String::from("var_1"),
                declared_type: None,
                value: None,
            }],
        }
    );

    program = scan_and_parse_program("var var_2 = 47;");
    assert_eq!(
        program,
        Program {
            statements: vec![Statement::VariableDefinition {
                identifier: String::from("var_2"),
                declared_type: None,
                value: Some(Expression::Number(47)),
            }],
        }
    );

    program = scan_and_parse_program("var str_1 = \"Hello, world!\\r\\n\";");
    assert_eq!(
        program,
        Program {
            statements: vec![Statement::VariableDefinition {
                identifier: String::from("str_1"),
                declared_type: None,
                value: Some(Expression::String(String::from("Hello, world!\\r\\n"))),
            }],
        }
    );

    program = scan_and_parse_program("var var_3: int;");
    assert_eq!(
        program,
        Program {
            statements: vec![Statement::VariableDefinition {
                identifier: String::from("var_3"),
                declared_type: Some(String::from("int")),
                value: None,
            }],
        }
    );

    program = scan_and_parse_program("var var_4: int = 23;");
    assert_eq!(
        program,
        Program {
            statements: vec![Statement::VariableDefinition {
                identifier: String::from("var_4"),
                declared_type: Some(String::from("int")),
                value: Some(Expression::Number(23)),
            }],
        }
    );

    program = scan_and_parse_program("var var_5: int = var_1 + var_2;");
    assert_eq!(
        program,
        Program {
            statements: vec![Statement::VariableDefinition {
                identifier: String::from("var_5"),
                declared_type: Some(String::from("int")),
                value: Some(Expression::BinaryOperation {
                    operator: BinaryOperator::Addition,
                    operand_left: Box::new(Expression::Identifier(String::from("var_1"))),
                    operand_right: Box::new(Expression::Identifier(String::from("var_2"))),
                }),
            }],
        }
    );

    program = scan_and_parse_program("var var_6: int = var_3 * var_4 - var_5;");
    assert_eq!(
        program,
        Program {
            statements: vec![Statement::VariableDefinition {
                identifier: String::from("var_6"),
                declared_type: Some(String::from("int")),
                value: Some(Expression::BinaryOperation {
                    operator: BinaryOperator::Subtraction,
                    operand_left: Box::new(Expression::BinaryOperation {
                        operator: BinaryOperator::Multiplication,
                        operand_left: Box::new(Expression::Identifier(String::from("var_3"))),
                        operand_right: Box::new(Expression::Identifier(String::from("var_4"))),
                    }),
                    operand_right: Box::new(Expression::Identifier(String::from("var_5"))),
                }),
            }],
        }
    );

    program = scan_and_parse_program("var var_7: int = var_3 * (var_4 - var_5);");
    assert_eq!(
        program,
        Program {
            statements: vec![Statement::VariableDefinition {
                identifier: String::from("var_7"),
                declared_type: Some(String::from("int")),
                value: Some(Expression::BinaryOperation {
                    operator: BinaryOperator::Multiplication,
                    operand_left: Box::new(Expression::Identifier(String::from("var_3"))),
                    operand_right: Box::new(Expression::BinaryOperation {
                        operator: BinaryOperator::Subtraction,
                        operand_left: Box::new(Expression::Identifier(String::from("var_4"))),
                        operand_right: Box::new(Expression::Identifier(String::from("var_5"))),
                    }),
                }),
            }],
        }
    );
}

#[test]
fn expression_assignment() {
    let program: Program;

    program = scan_and_parse_program("value = (factor + 9) / 17;");
    assert_eq!(
        program,
        Program {
            statements: vec![Statement::Expression {
                expression: Expression::BinaryOperation {
                    operator: BinaryOperator::Assign,
                    operand_left: Box::new(Expression::Identifier(String::from("value"))),
                    operand_right: Box::new(Expression::BinaryOperation {
                        operator: BinaryOperator::Division,
                        operand_left: Box::new(Expression::BinaryOperation {
                            operator: BinaryOperator::Addition,
                            operand_left: Box::new(Expression::Identifier(String::from(
                                "factor"
                            ))),
                            operand_right: Box::new(Expression::Number(9)),
                        }),
                        operand_right: Box::new(Expression::Number(17)),
                    }),
                },
            }],
        }
    );
}

#[test]
fn block() {
    let program: Program;

    program = scan_and_parse_program("var value = 17; { value = 45; { value = 33; } {} }");
    assert_eq!(
        program,
        Program {
            statements: vec![
                Statement::VariableDefinition {
                    identifier: String::from("value"),
                    declared_type: None,
                    value: Some(Expression::Number(17)),
                },
                Statement::Block {
                    statements: vec![
                        Statement::Expression {
                            expression: Expression::BinaryOperation {
                                operator: BinaryOperator::Assign,
                                operand_left: Box::new(Expression::Identifier(String::from(
                                    "value"
                                ))),
                                operand_right: Box::new(Expression::Number(45)),
                            },
                        },
                        Statement::Block {
                            statements: vec![Statement::Expression {
                                expression: Expression::BinaryOperation {
                                    operator: BinaryOperator::Assign,
                                    operand_left: Box::new(Expression::Identifier(String::from(
                                        "value"
                                    ))),
                                    operand_right: Box::new(Expression::Number(33)),
                                },
                            }],
                        },
                        Statement::Block { statements: vec![] },
                    ],
                },
            ],
        }
    );
}

#[test]
fn nested_blocks_innermost_empty() {
    let program = scan_and_parse_program("{ value = 45; { value = 33; } {} }");
    assert_eq!(
        program,
        Program {
            statements: vec![Statement::Block {
                statements: vec![
                    Statement::Expression {
                        expression: Expression::BinaryOperation {
                            operator: BinaryOperator::Assign,
                            operand_left: Box::new(Expression::Identifier(String::from("value"))),
                            operand_right: Box::new(Expression::Number(45)),
                        },
                    },
                    Statement::Block {
                        statements: vec![Statement::Expression {
                            expression: Expression::BinaryOperation {
                                operator: BinaryOperator::Assign,
                                operand_left: Box::new(Expression::Identifier(String::from(
                                    "value"
                                ))),
                                operand_right: Box::new(Expression::Number(33)),
                            },
                        }],
                    },
                    Statement::Block { statements: vec![] },
                ],
            }],
        }
    );
}

#[test]
fn function_definition_with_parameters_and_return_type() {
    let program = scan_and_parse_program("func add(a: int, b: int) -> int { return a + b; }");
    assert_eq!(
        program,
        Program {
            statements: vec![Statement::FunctionDefinition {
                callee_name: String::from("add"),
                parameters: vec![
                    Parameter {
                        name: String::from("a"),
                        declared_type: Some(String::from("int")),
                    },
                    Parameter {
                        name: String::from("b"),
                        declared_type: Some(String::from("int")),
                    },
                ],
                return_type: Some(String::from("int")),
                statements: vec![Statement::Return {
                    expression: Expression::BinaryOperation {
                        operator: BinaryOperator::Addition,
                        operand_left: Box::new(Expression::Identifier(String::from("a"))),
                        operand_right: Box::new(Expression::Identifier(String::from("b"))),
                    },
                }],
            }],
        }
    );
}

#[test]
fn function_definition_no_parameters_no_return_type() {
    let program = scan_and_parse_program("func run() { value = 1; }");
    assert_eq!(
        program,
        Program {
            statements: vec![Statement::FunctionDefinition {
                callee_name: String::from("run"),
                parameters: vec![],
                return_type: None,
                statements: vec![Statement::Expression {
                    expression: Expression::BinaryOperation {
                        operator: BinaryOperator::Assign,
                        operand_left: Box::new(Expression::Identifier(String::from("value"))),
                        operand_right: Box::new(Expression::Number(1)),
                    },
                }],
            }],
        }
    );
}

#[test]
fn function_call_arguments() {
    let program = scan_and_parse_program("g(1, x, \"s\");");
    assert_eq!(
        program,
        Program {
            statements: vec![Statement::Expression {
                expression: Expression::FunctionCall {
                    callee_name: String::from("g"),
                    arguments: vec![
                        Expression::Number(1),
                        Expression::Identifier(String::from("x")),
                        Expression::String(String::from("s")),
                    ],
                },
            }],
        }
    );
}

#[test]
fn function_call_no_arguments() {
    let program = scan_and_parse_program("f();");
    assert_eq!(
        program,
        Program {
            statements: vec![Statement::Expression {
                expression: Expression::FunctionCall {
                    callee_name: String::from("f"),
                    arguments: vec![],
                },
            }],
        }
    );
}

#[test]
fn string_literal_bytes_kept_verbatim() {
    let program = scan_and_parse_program("var s = \"Hello, world!\\r\\n\";");
    assert_eq!(
        program,
        Program {
            statements: vec![Statement::VariableDefinition {
                identifier: String::from("s"),
                declared_type: None,
                value: Some(Expression::String(String::from("Hello, world!\\r\\n"))),
            }],
        }
    );
}

#[test]
fn comments_are_transparent_to_parsing() {
    let commented = scan_and_parse_program("/* c1 */ var /*c2*/ x /*c3*/ = /*c4*/ 1 /*c5*/ ;");
    let plain = scan_and_parse_program("var x = 1;");
    assert_eq!(commented, plain);
}

#[test]
fn empty_program() {
    let program = scan_and_parse_program("");
    assert_eq!(program, Program { statements: vec![] });
}

#[test]
fn error_var_needs_identifier() {
    assert_eq!(parse_error("var = 1;"), ParseError::ExpectedIdentifier);
}

#[test]
fn error_var_type_needs_colon() {
    assert_eq!(
        parse_error("var x int;"),
        ParseError::ExpectedAssignOrEndOfStatement
    );
}

#[test]
fn error_unclosed_parenthesis() {
    assert_eq!(parse_error("var x = (1 + 2;"), ParseError::ExpectedRightRound);
}

#[test]
fn error_missing_end_of_statement() {
    assert_eq!(parse_error("value = 45 }"), ParseError::ExpectedEndOfStatement);
}

#[test]
fn error_missing_expression() {
    assert_eq!(parse_error("var x = ;"), ParseError::ExpectedExpression);
}

#[test]
fn error_argument_list_needs_comma() {
    assert_eq!(parse_error("f(1 2);"), ParseError::ExpectedCommaOrRightRound);
}

#[test]
fn error_argument_list_trailing_comma() {
    assert_eq!(parse_error("f(1,);"), ParseError::ExpectedExpression);
}

#[test]
fn error_parameter_list_needs_identifier() {
    assert_eq!(
        parse_error("func f(1) {}"),
        ParseError::ExpectedParameterOrRightRound
    );
}

#[test]
fn error_parameter_list_trailing_comma() {
    assert_eq!(parse_error("func f(a,) {}"), ParseError::ExpectedIdentifier);
}

#[test]
fn error_function_needs_parameter_list() {
    assert_eq!(parse_error("func f {}"), ParseError::ExpectedLeftRound);
}

#[test]
fn error_function_needs_body() {
    assert_eq!(parse_error("func f() -> int;"), ParseError::ExpectedLeftCurly);
}

#[test]
fn error_unterminated_block() {
    let mut parser = Parser::new(Stream::new(vec![Token::LeftCurlyBracket]));
    assert_eq!(
        parser.parse_program().unwrap_err(),
        ParseError::ExpectedStatementOrRightCurly
    );
}

#[test]
fn assignment_folds_left() {
    let program = scan_and_parse_program("a = b = c;");
    assert_eq!(
        program,
        Program {
            statements: vec![Statement::Expression {
                expression: Expression::BinaryOperation {
                    operator: BinaryOperator::Assign,
                    operand_left: Box::new(Expression::BinaryOperation {
                        operator: BinaryOperator::Assign,
                        operand_left: Box::new(Expression::Identifier(String::from("a"))),
                        operand_right: Box::new(Expression::Identifier(String::from("b"))),
                    }),
                    operand_right: Box::new(Expression::Identifier(String::from("c"))),
                },
            }],
        }
    );
}

#[test]
fn equality_binds_looser_than_addition() {
    let program = scan_and_parse_program("a == b + c;");
    assert_eq!(
        program,
        Program {
            statements: vec![Statement::Expression {
                expression: Expression::BinaryOperation {
                    operator: BinaryOperator::Equal,
                    operand_left: Box::new(Expression::Identifier(String::from("a"))),
                    operand_right: Box::new(Expression::BinaryOperation {
                        operator: BinaryOperator::Addition,
                        operand_left: Box::new(Expression::Identifier(String::from("b"))),
                        operand_right: Box::new(Expression::Identifier(String::from("c"))),
                    }),
                },
            }],
        }
    );
}

#[test]
fn subtraction_folds_left() {
    let program = scan_and_parse_program("a - b - c;");
    assert_eq!(
        program,
        Program {
            statements: vec![Statement::Expression {
                expression: Expression::BinaryOperation {
                    operator: BinaryOperator::Subtraction,
                    operand_left: Box::new(Expression::BinaryOperation {
                        operator: BinaryOperator::Subtraction,
                        operand_left: Box::new(Expression::Identifier(String::from("a"))),
                        operand_right: Box::new(Expression::Identifier(String::from("b"))),
                    }),
                    operand_right: Box::new(Expression::Identifier(String::from("c"))),
                },
            }],
        }
    );
}

#[test]
fn not_equal_comparison() {
    let program = scan_and_parse_program("a != b;");
    assert_eq!(
        program,
        Program {
            statements: vec![Statement::Expression {
                expression: Expression::BinaryOperation {
                    operator: BinaryOperator::NotEqual,
                    operand_left: Box::new(Expression::Identifier(String::from("a"))),
                    operand_right: Box::new(Expression::Identifier(String::from("b"))),
                },
            }],
        }
    );
}

#[test]
fn parameters_without_types() {
    let program = scan_and_parse_program("func pick(a, b) { return a; }");
    assert_eq!(
        program,
        Program {
            statements: vec![Statement::FunctionDefinition {
                callee_name: String::from("pick"),
                parameters: vec![
                    Parameter { name: String::from("a"), declared_type: None },
                    Parameter { name: String::from("b"), declared_type: None },
                ],
                return_type: None,
                statements: vec![Statement::Return {
                    expression: Expression::Identifier(String::from("a")),
                }],
            }],
        }
    );
}

#[test]
fn nested_call_arguments() {
    let program = scan_and_parse_program("f(g(1), 2);");
    assert_eq!(
        program,
        Program {
            statements: vec![Statement::Expression {
                expression: Expression::FunctionCall {
                    callee_name: String::from("f"),
                    arguments: vec![
                        Expression::FunctionCall {
                            callee_name: String::from("g"),
                            arguments: vec![Expression::Number(1)],
                        },
                        Expression::Number(2),
                    ],
                },
            }],
        }
    );
}
