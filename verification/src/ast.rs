//! The abstract syntax tree produced by the parser and walked by the
//! evaluator.

use vstd::prelude::*;

use crate::span::Span;

verus! {

/// Tracks whether a literal was written as Roman or Arabic.
#[derive(Debug, Clone, Copy, PartialEq, Eq, Structural)]
pub enum NumberForm {
    Arabic,
    Roman,
}

/// Binary operators.
#[derive(Debug, Clone, Copy, PartialEq, Eq, Structural)]
pub enum BinaryOperator {
    Add,
    Subtract,
    Multiply,
    Divide,
}

/// Built-in single-argument functions available in expression position.
#[derive(Debug, Clone, Copy, PartialEq, Eq, Structural)]
pub enum BuiltinFunction {
    Romaniza,
    Arabiza,
    Exprime,
}

impl BinaryOperator {
    /// The keyword that denotes this operator in source text.
    pub fn symbol(&self) -> (r: &'static str)
        ensures
            r@ == spec_operator_symbol(*self),
    {
        match self {
            BinaryOperator::Add => "ADDIUS",
            BinaryOperator::Subtract => "SUBTRAHE",
            BinaryOperator::Multiply => "MULTIPLICA",
            BinaryOperator::Divide => "DIVIDE",
        }
    }
}

/// The keyword that denotes an operator in source text.
pub open spec fn spec_operator_symbol(op: BinaryOperator) -> Seq<char> {
    match op {
        BinaryOperator::Add => "ADDIUS"@,
        BinaryOperator::Subtract => "SUBTRAHE"@,
        BinaryOperator::Multiply => "MULTIPLICA"@,
        BinaryOperator::Divide => "DIVIDE"@,
    }
}

/// Expression AST node. Each node owns its sub-expressions exclusively.
#[derive(Debug, PartialEq)]
pub enum Expression {
    /// A numeric literal (Arabic or Roman, stored as an integer).
    NumberLiteral { value: i32, original_form: NumberForm, span: Span },
    /// A string literal.
    StringLiteral { value: String, span: Span },
    /// Variable reference.
    Variable { name: String, span: Span },
    /// Binary operation (numbers, and string concatenation for addition).
    BinaryOp { left: Box<Expression>, operator: BinaryOperator, right: Box<Expression>, span: Span },
    /// Parenthesized expression.
    Grouped { inner: Box<Expression>, span: Span },
    /// Built-in function call with one argument.
    FunctionCall { function: BuiltinFunction, argument: Box<Expression>, span: Span },
}

/// Mathematical model of an `Expression`.
pub enum SpecExpression {
    NumberLiteral { value: int, original_form: NumberForm, span: Span },
    StringLiteral { value: Seq<char>, span: Span },
    Variable { name: Seq<char>, span: Span },
    BinaryOp {
        left: Box<SpecExpression>,
        operator: BinaryOperator,
        right: Box<SpecExpression>,
        span: Span,
    },
    Grouped { inner: Box<SpecExpression>, span: Span },
    FunctionCall { function: BuiltinFunction, argument: Box<SpecExpression>, span: Span },
}

/// The model of an expression tree.
pub open spec fn spec_expr_view(e: Expression) -> SpecExpression
    decreases e,
{
    match e {
        Expression::NumberLiteral { value, original_form, span } => {
            SpecExpression::NumberLiteral { value: value as int, original_form, span }
        },
        Expression::StringLiteral { value, span } => {
            SpecExpression::StringLiteral { value: value@, span }
        },
        Expression::Variable { name, span } => SpecExpression::Variable { name: name@, span },
        Expression::BinaryOp { left, operator, right, span } => {
            SpecExpression::BinaryOp {
                left: Box::new(spec_expr_view(*left)),
                operator,
                right: Box::new(spec_expr_view(*right)),
                span,
            }
        },
        Expression::Grouped { inner, span } => {
            SpecExpression::Grouped { inner: Box::new(spec_expr_view(*inner)), span }
        },
        Expression::FunctionCall { function, argument, span } => {
            SpecExpression::FunctionCall {
                function,
                argument: Box::new(spec_expr_view(*argument)),
                span,
            }
        },
    }
}

impl View for Expression {
    type V = SpecExpression;

    open spec fn view(&self) -> SpecExpression {
        spec_expr_view(*self)
    }
}

/// The span of an expression node.
pub open spec fn spec_expr_span(e: SpecExpression) -> Span {
    match e {
        SpecExpression::NumberLiteral { span, .. } => span,
        SpecExpression::StringLiteral { span, .. } => span,
        SpecExpression::Variable { span, .. } => span,
        SpecExpression::BinaryOp { span, .. } => span,
        SpecExpression::Grouped { span, .. } => span,
        SpecExpression::FunctionCall { span, .. } => span,
    }
}

impl Expression {
    /// Get the span of this expression.
    pub fn span(&self) -> (r: Span)
        ensures
            r == spec_expr_span(self@),
    {
        match self {
            Expression::NumberLiteral { span, .. } => *span,
            Expression::StringLiteral { span, .. } => *span,
            Expression::Variable { span, .. } => *span,
            Expression::BinaryOp { span, .. } => *span,
            Expression::Grouped { span, .. } => *span,
            Expression::FunctionCall { span, .. } => *span,
        }
    }
}

/// All statement types of the language.
#[derive(Debug, PartialEq)]
pub enum Statement {
    /// `DECLARA <name> EST <value>`
    Declaration { name: String, value: Expression, span: Span },
    /// `<name> EST <value>`
    Assignment { name: String, value: Expression, span: Span },
    /// `SCRIBE(<value>)`
    Print { value: Expression, span: Span },
    /// `AVTEM` - ceremonial no-op.
    Avtem { span: Span },
    /// `NOTA: ...` - comment.
    Comment { text: String, span: Span },
}

/// Mathematical model of a `Statement`.
pub enum SpecStatement {
    Declaration { name: Seq<char>, value: SpecExpression, span: Span },
    Assignment { name: Seq<char>, value: SpecExpression, span: Span },
    Print { value: SpecExpression, span: Span },
    Avtem { span: Span },
    Comment { text: Seq<char>, span: Span },
}

impl View for Statement {
    type V = SpecStatement;

    open spec fn view(&self) -> SpecStatement {
        match self {
            Statement::Declaration { name, value, span } => {
                SpecStatement::Declaration { name: name@, value: value@, span: *span }
            },
            Statement::Assignment { name, value, span } => {
                SpecStatement::Assignment { name: name@, value: value@, span: *span }
            },
            Statement::Print { value, span } => {
                SpecStatement::Print { value: value@, span: *span }
            },
            Statement::Avtem { span } => SpecStatement::Avtem { span: *span },
            Statement::Comment { text, span } => {
                SpecStatement::Comment { text: text@, span: *span }
            },
        }
    }
}

/// The root of the AST: a program is a list of statements.
#[derive(Debug, PartialEq)]
pub struct Program {
    pub statements: Vec<Statement>,
}

impl View for Program {
    type V = Seq<SpecStatement>;

    open spec fn view(&self) -> Seq<SpecStatement> {
        self.statements@.map_values(|s: Statement| s@)
    }
}

impl Program {
    pub fn new(statements: Vec<Statement>) -> (r: Program)
        ensures
            r.statements == statements,
    {
        Program { statements }
    }
}

} // verus!
