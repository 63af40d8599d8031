//! The abstract syntax tree the parser produces: expressions, parameters,
//! statements and the program root, each with a mathematical view.

use vstd::prelude::*;

verus! {

broadcast use vstd::std_specs::vec::axiom_vec_index_decreases, vstd::seq::axiom_seq_subrange_decreases;

/// Operators of a binary operation, in every precedence tier.
#[derive(Clone, Copy, Debug, PartialEq, Eq, Structural)]
pub enum BinaryOperator {
    Addition,
    Subtraction,
    Multiplication,
    Division,
    Equal,
    NotEqual,
    Assign,
}

/// Expressions: the leaves are identifiers and literals; binary operations
/// and function calls own their operands and arguments.
#[derive(Debug, PartialEq)]
pub enum Expression {
    Identifier(String),
    Number(isize),
    String(String),
    BinaryOperation {
        operator: BinaryOperator,
        operand_left: Box<Expression>,
        operand_right: Box<Expression>,
    },
    FunctionCall { callee_name: String, arguments: Vec<Expression> },
}

/// A function parameter: a name with an optional type name.
#[derive(Debug, PartialEq)]
pub struct Parameter {
    pub name: String,
    pub declared_type: Option<String>,
}

/// Statements, the elements a program is made of.
#[derive(Debug, PartialEq)]
pub enum Statement {
    /// Variable definition, like `var num: int = 47;`; the type and the
    /// initial value are each optional.
    VariableDefinition {
        identifier: String,
        declared_type: Option<String>,
        value: Option<Expression>,
    },
    /// Function definition, like `func add(a: int, b: int) -> int { ... }`;
    /// the return type is optional.
    FunctionDefinition {
        callee_name: String,
        parameters: Vec<Parameter>,
        return_type: Option<String>,
        statements: Vec<Statement>,
    },
    /// Return statement, like `return a + b;`.
    Return { expression: Expression },
    /// Expression statement, like `value = (init + 3) * 4;`.
    Expression { expression: Expression },
    /// Block statement: statements between `{` and `}`.
    Block { statements: Vec<Statement> },
}

/// A parsed program: the sequence of its top-level statements.
#[derive(Debug, PartialEq)]
pub struct Program {
    pub statements: Vec<Statement>,
}

/// Mathematical value of an [`Expression`].
pub enum ExprView {
    Identifier(Seq<char>),
    Number(int),
    String(Seq<char>),
    BinaryOperation {
        operator: BinaryOperator,
        operand_left: Box<ExprView>,
        operand_right: Box<ExprView>,
    },
    FunctionCall { callee_name: Seq<char>, arguments: Seq<ExprView> },
}

/// Mathematical value of a [`Parameter`].
pub struct ParamView {
    pub name: Seq<char>,
    pub declared_type: Option<Seq<char>>,
}

/// Mathematical value of a [`Statement`].
pub enum StmtView {
    VariableDefinition {
        identifier: Seq<char>,
        declared_type: Option<Seq<char>>,
        value: Option<ExprView>,
    },
    FunctionDefinition {
        callee_name: Seq<char>,
        parameters: Seq<ParamView>,
        return_type: Option<Seq<char>>,
        statements: Seq<StmtView>,
    },
    Return { expression: ExprView },
    Expression { expression: ExprView },
    Block { statements: Seq<StmtView> },
}

/// Mathematical value of a [`Program`].
pub struct ProgramView {
    pub statements: Seq<StmtView>,
}

/// Views of each expression in a sequence.
pub open spec fn expr_seq_view(s: Seq<Expression>) -> Seq<ExprView>
    decreases s,
{
    if s.len() == 0 {
        Seq::empty()
    } else {
        seq![s[0].deep_view()] + expr_seq_view(s.subrange(1, s.len() as int))
    }
}

/// Views of each statement in a sequence.
pub open spec fn stmt_seq_view(s: Seq<Statement>) -> Seq<StmtView>
    decreases s,
{
    if s.len() == 0 {
        Seq::empty()
    } else {
        seq![s[0].deep_view()] + stmt_seq_view(s.subrange(1, s.len() as int))
    }
}

/// Appending one expression extends the sequence's view by that
/// expression's view.
pub proof fn lemma_expr_seq_view_push(s: Seq<Expression>, e: Expression)
    ensures
        expr_seq_view(s.push(e)) == expr_seq_view(s) + seq![e.deep_view()],
    decreases s.len(),
{
    reveal_with_fuel(expr_seq_view, 3);
    let whole = s.push(e);
    if s.len() == 0 {
        assert(whole.subrange(1, whole.len() as int) =~= Seq::<Expression>::empty());
        assert(expr_seq_view(whole) =~= expr_seq_view(s) + seq![e.deep_view()]);
    } else {
        let tail = s.subrange(1, s.len() as int);
        assert(whole.subrange(1, whole.len() as int) =~= tail.push(e));
        lemma_expr_seq_view_push(tail, e);
        assert(whole[0] == s[0]);
        assert(expr_seq_view(whole) =~= expr_seq_view(s) + seq![e.deep_view()]);
    }
}

/// Appending one statement extends the sequence's view by that statement's
/// view.
pub proof fn lemma_stmt_seq_view_push(s: Seq<Statement>, stmt: Statement)
    ensures
        stmt_seq_view(s.push(stmt)) == stmt_seq_view(s) + seq![stmt.deep_view()],
    decreases s.len(),
{
    reveal_with_fuel(stmt_seq_view, 3);
    let whole = s.push(stmt);
    if s.len() == 0 {
        assert(whole.subrange(1, whole.len() as int) =~= Seq::<Statement>::empty());
        assert(stmt_seq_view(whole) =~= stmt_seq_view(s) + seq![stmt.deep_view()]);
    } else {
        let tail = s.subrange(1, s.len() as int);
        assert(whole.subrange(1, whole.len() as int) =~= tail.push(stmt));
        lemma_stmt_seq_view_push(tail, stmt);
        assert(whole[0] == s[0]);
        assert(stmt_seq_view(whole) =~= stmt_seq_view(s) + seq![stmt.deep_view()]);
    }
}

/// The view of an optional name.
pub open spec fn opt_name_view(name: Option<String>) -> Option<Seq<char>> {
    match name {
        Option::Some(text) => Option::Some(text@),
        Option::None => Option::None,
    }
}

impl DeepView for Expression {
    type V = ExprView;

    open spec fn deep_view(&self) -> ExprView
        decreases self,
    {
        match self {
            Expression::Identifier(name) => ExprView::Identifier(name@),
            Expression::Number(value) => ExprView::Number(*value as int),
            Expression::String(text) => ExprView::String(text@),
            Expression::BinaryOperation { operator, operand_left, operand_right } => {
                ExprView::BinaryOperation {
                    operator: *operator,
                    operand_left: Box::new((**operand_left).deep_view()),
                    operand_right: Box::new((**operand_right).deep_view()),
                }
            },
            Expression::FunctionCall { callee_name, arguments } => {
                ExprView::FunctionCall {
                    callee_name: callee_name@,
                    arguments: expr_seq_view(arguments@),
                }
            },
        }
    }
}

impl DeepView for Parameter {
    type V = ParamView;

    open spec fn deep_view(&self) -> ParamView {
        ParamView { name: self.name@, declared_type: opt_name_view(self.declared_type) }
    }
}

impl DeepView for Statement {
    type V = StmtView;

    open spec fn deep_view(&self) -> StmtView
        decreases self,
    {
        match self {
            Statement::VariableDefinition { identifier, declared_type, value } => {
                StmtView::VariableDefinition {
                    identifier: identifier@,
                    declared_type: opt_name_view(*declared_type),
                    value: match value {
                        Option::Some(e) => Option::Some(e.deep_view()),
                        Option::None => Option::None,
                    },
                }
            },
            Statement::FunctionDefinition { callee_name, parameters, return_type, statements } => {
                StmtView::FunctionDefinition {
                    callee_name: callee_name@,
                    parameters: parameters.deep_view(),
                    return_type: opt_name_view(*return_type),
                    statements: stmt_seq_view(statements@),
                }
            },
            Statement::Return { expression } => StmtView::Return {
                expression: expression.deep_view(),
            },
            Statement::Expression { expression } => StmtView::Expression {
                expression: expression.deep_view(),
            },
            Statement::Block { statements } => StmtView::Block {
                statements: stmt_seq_view(statements@),
            },
        }
    }
}

impl DeepView for Program {
    type V = ProgramView;

    open spec fn deep_view(&self) -> ProgramView {
        ProgramView { statements: stmt_seq_view(self.statements@) }
    }
}

} // verus!
