//! Recursive-descent parser: builds a program from a token stream ending in
//! an end-of-input token, or fails with the first syntax error. Expressions
//! use two precedence levels, both left-associative.

use vstd::prelude::*;

use crate::ast::{
    BinaryOperator, BuiltinFunction, Expression, NumberForm, Program, SpecExpression,
    SpecStatement, Statement, spec_expr_span,
};
use crate::error::{NumerusError, SpecNumerusError};
use crate::lexer::tokens_view;
use crate::span::Span;
use crate::token::{spec_kind_name, SpecToken, SpecTokenKind, Token, TokenKind};

verus! {

/// The token at position `i`, or an end-of-input token for an out-of-range
/// position.
pub open spec fn spec_tok_at(ts: Seq<SpecToken>, i: int) -> SpecToken {
    if 0 <= i < ts.len() {
        ts[i]
    } else {
        SpecToken {
            kind: SpecTokenKind::Eof,
            span: Span { start: 0, end: 0, line: 0, column: 0 },
            lexeme: Seq::empty(),
        }
    }
}

/// The position after consuming one token: the scanner never moves past the
/// end-of-input token.
pub open spec fn spec_adv(ts: Seq<SpecToken>, i: int) -> int {
    if spec_tok_at(ts, i).kind is Eof {
        i
    } else {
        i + 1
    }
}

/// Whether two token kinds are the same variant, payloads ignored.
pub open spec fn spec_same_kind(a: SpecTokenKind, b: SpecTokenKind) -> bool {
    match a {
        SpecTokenKind::Declara => b is Declara,
        SpecTokenKind::Est => b is Est,
        SpecTokenKind::Addius => b is Addius,
        SpecTokenKind::Subtrahe => b is Subtrahe,
        SpecTokenKind::Multiplica => b is Multiplica,
        SpecTokenKind::Divide => b is Divide,
        SpecTokenKind::Scribe => b is Scribe,
        SpecTokenKind::Avtem => b is Avtem,
        SpecTokenKind::Romaniza => b is Romaniza,
        SpecTokenKind::Arabiza => b is Arabiza,
        SpecTokenKind::Exprime => b is Exprime,
        SpecTokenKind::ArabicLiteral(_) => b is ArabicLiteral,
        SpecTokenKind::RomanLiteral(_) => b is RomanLiteral,
        SpecTokenKind::StringLiteral(_) => b is StringLiteral,
        SpecTokenKind::Identifier(_) => b is Identifier,
        SpecTokenKind::LeftParen => b is LeftParen,
        SpecTokenKind::RightParen => b is RightParen,
        SpecTokenKind::LeftBrace => b is LeftBrace,
        SpecTokenKind::RightBrace => b is RightBrace,
        SpecTokenKind::Comma => b is Comma,
        SpecTokenKind::Comment(_) => b is Comment,
        SpecTokenKind::Newline => b is Newline,
        SpecTokenKind::Eof => b is Eof,
    }
}

/// Demanding a token of a given variant: the token and the position after it
/// on a match, an error naming the expected and found kinds otherwise.
pub open spec fn spec_expect(ts: Seq<SpecToken>, i: int, k: SpecTokenKind) -> (
    Result<SpecToken, SpecNumerusError>,
    int,
) {
    let t = spec_tok_at(ts, i);
    if spec_same_kind(t.kind, k) {
        (Ok(t), spec_adv(ts, i))
    } else {
        (
            Err(
                SpecNumerusError::UnexpectedToken {
                    expected: spec_kind_name(k),
                    found: spec_kind_name(t.kind),
                    span: t.span,
                },
            ),
            i,
        )
    }
}

/// A forward move to `j`, clamped so that it always strictly advances and
/// stays within the stream; inert wherever a parse step really consumed
/// tokens.
pub open spec fn spec_forward(i: int, j: int, len: int) -> int {
    if i < j && j <= len {
        j
    } else {
        i + 1
    }
}

/// factor := NUMBER | STRING | IDENT | '(' expression ')' | BUILTIN '(' expression ')'
pub open spec fn spec_parse_factor(ts: Seq<SpecToken>, i: int) -> (
    Result<SpecExpression, SpecNumerusError>,
    int,
)
    decreases ts.len() - i, 1int,
{
    let t = spec_tok_at(ts, i);
    match t.kind {
        SpecTokenKind::ArabicLiteral(n) => (
            Ok(
                SpecExpression::NumberLiteral {
                    value: n,
                    original_form: NumberForm::Arabic,
                    span: t.span,
                },
            ),
            i + 1,
        ),
        SpecTokenKind::RomanLiteral(n) => (
            Ok(
                SpecExpression::NumberLiteral {
                    value: n,
                    original_form: NumberForm::Roman,
                    span: t.span,
                },
            ),
            i + 1,
        ),
        SpecTokenKind::StringLiteral(s) => (
            Ok(SpecExpression::StringLiteral { value: s, span: t.span }),
            i + 1,
        ),
        SpecTokenKind::Identifier(name) => (
            Ok(SpecExpression::Variable { name, span: t.span }),
            i + 1,
        ),
        SpecTokenKind::LeftParen => {
            match spec_parse_expression(ts, i + 1) {
                (Err(e), j) => (Err(e), j),
                (Ok(inner), j) => {
                    match spec_expect(ts, j, SpecTokenKind::RightParen) {
                        (Err(e), k) => (Err(e), k),
                        (Ok(close), k) => (
                            Ok(
                                SpecExpression::Grouped {
                                    inner: Box::new(inner),
                                    span: t.span.spec_merge(close.span),
                                },
                            ),
                            k,
                        ),
                    }
                },
            }
        },
        SpecTokenKind::Romaniza => spec_parse_function_call(ts, i, BuiltinFunction::Romaniza),
        SpecTokenKind::Arabiza => spec_parse_function_call(ts, i, BuiltinFunction::Arabiza),
        SpecTokenKind::Exprime => spec_parse_function_call(ts, i, BuiltinFunction::Exprime),
        _ => (
            Err(
                SpecNumerusError::ExpectedExpression {
                    after: if i > 0 {
                        spec_kind_name(spec_tok_at(ts, i - 1).kind)
                    } else {
                        "start"@
                    },
                    span: t.span,
                },
            ),
            i,
        ),
    }
}

/// A built-in call: the builtin keyword, then exactly one parenthesized
/// argument expression.
pub open spec fn spec_parse_function_call(ts: Seq<SpecToken>, i: int, f: BuiltinFunction) -> (
    Result<SpecExpression, SpecNumerusError>,
    int,
)
    decreases ts.len() - i, 0int,
{
    let start = spec_tok_at(ts, i).span;
    let i1 = spec_adv(ts, i);
    match spec_expect(ts, i1, SpecTokenKind::LeftParen) {
        (Err(e), j) => (Err(e), j),
        (Ok(_), i2) => {
            match spec_parse_expression(ts, spec_forward(i, i2, ts.len() as int)) {
                (Err(e), j) => (Err(e), j),
                (Ok(argument), j) => {
                    match spec_expect(ts, j, SpecTokenKind::RightParen) {
                        (Err(e), k) => (Err(e), k),
                        (Ok(end), k) => (
                            Ok(
                                SpecExpression::FunctionCall {
                                    function: f,
                                    argument: Box::new(argument),
                                    span: start.spec_merge(end.span),
                                },
                            ),
                            k,
                        ),
                    }
                },
            }
        },
    }
}

/// The left-associative tail of a multiplicative chain.
pub open spec fn spec_parse_mult_rest(ts: Seq<SpecToken>, i: int, left: SpecExpression) -> (
    Result<SpecExpression, SpecNumerusError>,
    int,
)
    decreases ts.len() - i, 1int,
{
    let t = spec_tok_at(ts, i);
    if t.kind is Multiplica || t.kind is Divide {
        let op = if t.kind is Multiplica {
            BinaryOperator::Multiply
        } else {
            BinaryOperator::Divide
        };
        match spec_parse_factor(ts, i + 1) {
            (Err(e), j) => (Err(e), j),
            (Ok(right), j) => {
                let span = spec_expr_span(left).spec_merge(spec_expr_span(right));
                let node = SpecExpression::BinaryOp {
                    left: Box::new(left),
                    operator: op,
                    right: Box::new(right),
                    span,
                };
                spec_parse_mult_rest(ts, spec_forward(i, j, ts.len() as int), node)
            },
        }
    } else {
        (Ok(left), i)
    }
}

/// multiplicative := factor ( (MULTIPLICA|DIVIDE) factor )*
pub open spec fn spec_parse_multiplicative(ts: Seq<SpecToken>, i: int) -> (
    Result<SpecExpression, SpecNumerusError>,
    int,
)
    decreases ts.len() - i, 2int,
{
    match spec_parse_factor(ts, i) {
        (Err(e), j) => (Err(e), j),
        (Ok(left), j) => {
            if i < j && j <= ts.len() {
                spec_parse_mult_rest(ts, j, left)
            } else {
                (Ok(left), j)
            }
        },
    }
}

/// The left-associative tail of an additive chain.
pub open spec fn spec_parse_add_rest(ts: Seq<SpecToken>, i: int, left: SpecExpression) -> (
    Result<SpecExpression, SpecNumerusError>,
    int,
)
    decreases ts.len() - i, 3int,
{
    let t = spec_tok_at(ts, i);
    if t.kind is Addius || t.kind is Subtrahe {
        let op = if t.kind is Addius {
            BinaryOperator::Add
        } else {
            BinaryOperator::Subtract
        };
        match spec_parse_multiplicative(ts, i + 1) {
            (Err(e), j) => (Err(e), j),
            (Ok(right), j) => {
                let span = spec_expr_span(left).spec_merge(spec_expr_span(right));
                let node = SpecExpression::BinaryOp {
                    left: Box::new(left),
                    operator: op,
                    right: Box::new(right),
                    span,
                };
                spec_parse_add_rest(ts, spec_forward(i, j, ts.len() as int), node)
            },
        }
    } else {
        (Ok(left), i)
    }
}

/// additive := multiplicative ( (ADDIUS|SUBTRAHE) multiplicative )*
pub open spec fn spec_parse_additive(ts: Seq<SpecToken>, i: int) -> (
    Result<SpecExpression, SpecNumerusError>,
    int,
)
    decreases ts.len() - i, 4int,
{
    match spec_parse_multiplicative(ts, i) {
        (Err(e), j) => (Err(e), j),
        (Ok(left), j) => {
            if i < j && j <= ts.len() {
                spec_parse_add_rest(ts, j, left)
            } else {
                (Ok(left), j)
            }
        },
    }
}

/// expression := additive
pub open spec fn spec_parse_expression(ts: Seq<SpecToken>, i: int) -> (
    Result<SpecExpression, SpecNumerusError>,
    int,
)
    decreases ts.len() - i, 5int,
{
    spec_parse_additive(ts, i)
}

/// Demanding an identifier: its name and the position after it, or an error
/// at the found token.
pub open spec fn spec_expect_identifier(ts: Seq<SpecToken>, i: int) -> (
    Result<Seq<char>, SpecNumerusError>,
    int,
) {
    let t = spec_tok_at(ts, i);
    match t.kind {
        SpecTokenKind::Identifier(name) => (Ok(name), spec_adv(ts, i)),
        _ => (Err(SpecNumerusError::ExpectedIdentifier { span: t.span }), i),
    }
}

/// DECLARA <ident> EST <expr>
pub open spec fn spec_parse_declaration(ts: Seq<SpecToken>, i: int) -> (
    Result<SpecStatement, SpecNumerusError>,
    int,
)
    decreases ts.len() - i, 6int,
{
    let start_span = spec_tok_at(ts, i).span;
    let i1 = spec_adv(ts, i);
    match spec_expect_identifier(ts, i1) {
        (Err(e), j) => (Err(e), j),
        (Ok(name), i2) => {
            match spec_expect(ts, i2, SpecTokenKind::Est) {
                (Err(e), j) => (Err(e), j),
                (Ok(_), i3) => {
                    match spec_parse_expression(ts, spec_forward(i, i3, ts.len() as int)) {
                        (Err(e), j) => (Err(e), j),
                        (Ok(value), j) => (
                            Ok(
                                SpecStatement::Declaration {
                                    name,
                                    span: start_span.spec_merge(spec_expr_span(value)),
                                    value,
                                },
                            ),
                            j,
                        ),
                    }
                },
            }
        },
    }
}

/// <ident> EST <expr>
pub open spec fn spec_parse_assignment(ts: Seq<SpecToken>, i: int) -> (
    Result<SpecStatement, SpecNumerusError>,
    int,
)
    decreases ts.len() - i, 6int,
{
    let t = spec_tok_at(ts, i);
    let i1 = spec_adv(ts, i);
    match t.kind {
        SpecTokenKind::Identifier(name) => {
            match spec_expect(ts, i1, SpecTokenKind::Est) {
                (Err(e), j) => (Err(e), j),
                (Ok(_), i2) => {
                    match spec_parse_expression(ts, spec_forward(i, i2, ts.len() as int)) {
                        (Err(e), j) => (Err(e), j),
                        (Ok(value), j) => (
                            Ok(
                                SpecStatement::Assignment {
                                    name,
                                    span: t.span.spec_merge(spec_expr_span(value)),
                                    value,
                                },
                            ),
                            j,
                        ),
                    }
                },
            }
        },
        _ => (Err(SpecNumerusError::ExpectedIdentifier { span: t.span }), i1),
    }
}

/// SCRIBE ( <expr> )
pub open spec fn spec_parse_print(ts: Seq<SpecToken>, i: int) -> (
    Result<SpecStatement, SpecNumerusError>,
    int,
)
    decreases ts.len() - i, 6int,
{
    let start_span = spec_tok_at(ts, i).span;
    let i1 = spec_adv(ts, i);
    match spec_expect(ts, i1, SpecTokenKind::LeftParen) {
        (Err(e), j) => (Err(e), j),
        (Ok(_), i2) => {
            match spec_parse_expression(ts, spec_forward(i, i2, ts.len() as int)) {
                (Err(e), j) => (Err(e), j),
                (Ok(value), j) => {
                    match spec_expect(ts, j, SpecTokenKind::RightParen) {
                        (Err(e), k) => (Err(e), k),
                        (Ok(end), k) => (
                            Ok(
                                SpecStatement::Print {
                                    value,
                                    span: start_span.spec_merge(end.span),
                                },
                            ),
                            k,
                        ),
                    }
                },
            }
        },
    }
}

/// One statement, dispatched on its leading token.
pub open spec fn spec_parse_statement(ts: Seq<SpecToken>, i: int) -> (
    Result<SpecStatement, SpecNumerusError>,
    int,
)
    decreases ts.len() - i, 7int,
{
    let t = spec_tok_at(ts, i);
    match t.kind {
        SpecTokenKind::Declara => spec_parse_declaration(ts, i),
        SpecTokenKind::Scribe => spec_parse_print(ts, i),
        SpecTokenKind::Avtem => (Ok(SpecStatement::Avtem { span: t.span }), spec_adv(ts, i)),
        SpecTokenKind::Comment(text) => (
            Ok(SpecStatement::Comment { text, span: t.span }),
            spec_adv(ts, i),
        ),
        SpecTokenKind::Identifier(_) => spec_parse_assignment(ts, i),
        SpecTokenKind::Eof => (Err(SpecNumerusError::UnexpectedEndOfInput), i),
        _ => (
            Err(
                SpecNumerusError::UnexpectedToken {
                    expected: "DECLARA, SCRIBE, AVTEM, or identifier"@,
                    found: spec_kind_name(t.kind),
                    span: t.span,
                },
            ),
            i,
        ),
    }
}

/// The whole program: statements until the end-of-input token.
pub open spec fn spec_parse_program(ts: Seq<SpecToken>, i: int) -> Result<
    Seq<SpecStatement>,
    SpecNumerusError,
>
    decreases ts.len() - i, 8int,
{
    if spec_tok_at(ts, i).kind is Eof {
        Ok(Seq::empty())
    } else {
        match spec_parse_statement(ts, i) {
            (Err(e), _) => Err(e),
            (Ok(st), j) => {
                match spec_parse_program(ts, spec_forward(i, j, ts.len() as int)) {
                    Err(e) => Err(e),
                    Ok(rest) => Ok(seq![st] + rest),
                }
            },
        }
    }
}

fn kind_same(a: &TokenKind, b: &TokenKind) -> (r: bool)
    ensures
        r == spec_same_kind(a@, b@),
{
    match (a, b) {
        (TokenKind::Declara, TokenKind::Declara) => true,
        (TokenKind::Est, TokenKind::Est) => true,
        (TokenKind::Addius, TokenKind::Addius) => true,
        (TokenKind::Subtrahe, TokenKind::Subtrahe) => true,
        (TokenKind::Multiplica, TokenKind::Multiplica) => true,
        (TokenKind::Divide, TokenKind::Divide) => true,
        (TokenKind::Scribe, TokenKind::Scribe) => true,
        (TokenKind::Avtem, TokenKind::Avtem) => true,
        (TokenKind::Romaniza, TokenKind::Romaniza) => true,
        (TokenKind::Arabiza, TokenKind::Arabiza) => true,
        (TokenKind::Exprime, TokenKind::Exprime) => true,
        (TokenKind::ArabicLiteral(_), TokenKind::ArabicLiteral(_)) => true,
        (TokenKind::RomanLiteral(_), TokenKind::RomanLiteral(_)) => true,
        (TokenKind::StringLiteral(_), TokenKind::StringLiteral(_)) => true,
        (TokenKind::Identifier(_), TokenKind::Identifier(_)) => true,
        (TokenKind::LeftParen, TokenKind::LeftParen) => true,
        (TokenKind::RightParen, TokenKind::RightParen) => true,
        (TokenKind::LeftBrace, TokenKind::LeftBrace) => true,
        (TokenKind::RightBrace, TokenKind::RightBrace) => true,
        (TokenKind::Comma, TokenKind::Comma) => true,
        (TokenKind::Comment(_), TokenKind::Comment(_)) => true,
        (TokenKind::Newline, TokenKind::Newline) => true,
        (TokenKind::Eof, TokenKind::Eof) => true,
        _ => false,
    }
}

/// The parser's state: the token stream and the cursor into it.
pub struct SpecParser {
    pub tokens: Seq<SpecToken>,
    pub current: int,
}

/// Recursive-descent parser over a token stream that ends with an
/// end-of-input token.
pub struct Parser {
    tokens: Vec<Token>,
    current: usize,
}

impl View for Parser {
    type V = SpecParser;

    closed spec fn view(&self) -> SpecParser {
        SpecParser { tokens: tokens_view(self.tokens@), current: self.current as int }
    }
}

impl Parser {
    #[verifier::type_invariant]
    spec fn wf(&self) -> bool {
        self.tokens@.len() > 0 && self.current < self.tokens@.len() && tokens_view(
            self.tokens@,
        ).last().kind is Eof
    }

    /// A parser over a token stream; the stream must end with an
    /// end-of-input token, which the cursor never passes.
    pub fn new(tokens: Vec<Token>) -> (r: Parser)
        requires
            tokens@.len() > 0,
            tokens@[tokens@.len() - 1]@.kind is Eof,
        ensures
            r@ == (SpecParser { tokens: tokens_view(tokens@), current: 0 }),
    {
        proof {
            assert(tokens_view(tokens@).last() == tokens@[tokens@.len() - 1]@);
        }
        Parser { tokens, current: 0 }
    }

    /// The kind of the token under the cursor.
    fn peek_kind(&self) -> (k: TokenKind)
        ensures
            k@ == spec_tok_at(self@.tokens, self@.current).kind,
    {
        proof {
            use_type_invariant(self);
        }
        self.tokens[self.current].kind.duplicate()
    }

    /// The span of the token under the cursor.
    fn peek_span(&self) -> (s: Span)
        ensures
            s == spec_tok_at(self@.tokens, self@.current).span,
    {
        proof {
            use_type_invariant(self);
        }
        self.tokens[self.current].span
    }

    fn is_at_end(&self) -> (r: bool)
        ensures
            r == (spec_tok_at(self@.tokens, self@.current).kind is Eof),
    {
        proof {
            use_type_invariant(self);
        }
        match self.tokens[self.current].kind {
            TokenKind::Eof => true,
            _ => false,
        }
    }

    fn peek_is_mult(&self) -> (r: bool)
        ensures
            r == (spec_tok_at(self@.tokens, self@.current).kind is Multiplica || spec_tok_at(
                self@.tokens,
                self@.current,
            ).kind is Divide),
    {
        proof {
            use_type_invariant(self);
        }
        match self.tokens[self.current].kind {
            TokenKind::Multiplica | TokenKind::Divide => true,
            _ => false,
        }
    }

    fn peek_is_add(&self) -> (r: bool)
        ensures
            r == (spec_tok_at(self@.tokens, self@.current).kind is Addius || spec_tok_at(
                self@.tokens,
                self@.current,
            ).kind is Subtrahe),
    {
        proof {
            use_type_invariant(self);
        }
        match self.tokens[self.current].kind {
            TokenKind::Addius | TokenKind::Subtrahe => true,
            _ => false,
        }
    }

    /// Move the cursor one token forward, but never past the end-of-input
    /// token.
    fn bump(&mut self)
        ensures
            final(self)@.tokens == old(self)@.tokens,
            final(self)@.current == spec_adv(old(self)@.tokens, old(self)@.current),
    {
        proof {
            use_type_invariant(&*self);
            assert(tokens_view(self.tokens@).last() == self.tokens@[self.tokens@.len() - 1]@);
        }
        let n = self.tokens.len();
        let at_eof = match self.tokens[self.current].kind {
            TokenKind::Eof => true,
            _ => false,
        };
        if !at_eof {
            proof {
                assert(self.current < n);
            }
            self.current = self.current + 1;
        }
    }

    /// Demand a token of the given variant and consume it, or fail naming
    /// the expected and found kinds.
    fn expect_token(&mut self, expected: TokenKind) -> (r: Result<Span, NumerusError>)
        ensures
            final(self)@.tokens == old(self)@.tokens,
            ({
                let (sr, j) = spec_expect(old(self)@.tokens, old(self)@.current, expected@);
                final(self)@.current == j && (r matches Ok(sp) ==> (sr matches Ok(t) && t.span
                    == sp)) && (r matches Err(e) ==> sr == Err::<SpecToken, SpecNumerusError>(e@))
            }),
    {
        proof {
            use_type_invariant(&*self);
        }
        let matched = kind_same(&self.tokens[self.current].kind, &expected);
        if matched {
            let sp = self.peek_span();
            self.bump();
            Ok(sp)
        } else {
            let found = self.peek_kind();
            Err(
                NumerusError::UnexpectedToken {
                    expected: String::from_str(expected.name()),
                    found: String::from_str(found.name()),
                    span: self.peek_span(),
                },
            )
        }
    }

    /// Demand an identifier and consume it, or fail at the found token.
    fn expect_identifier(&mut self) -> (r: Result<String, NumerusError>)
        ensures
            final(self)@.tokens == old(self)@.tokens,
            ({
                let (sr, j) = spec_expect_identifier(old(self)@.tokens, old(self)@.current);
                final(self)@.current == j && (r matches Ok(name) ==> sr == Ok::<
                    Seq<char>,
                    SpecNumerusError,
                >(name@)) && (r matches Err(e) ==> sr == Err::<Seq<char>, SpecNumerusError>(e@))
            }),
    {
        proof {
            use_type_invariant(&*self);
        }
        let name_opt = match &self.tokens[self.current].kind {
            TokenKind::Identifier(s) => Some(s.clone()),
            _ => None,
        };
        match name_opt {
            Some(name) => {
                self.bump();
                Ok(name)
            },
            None => Err(NumerusError::ExpectedIdentifier { span: self.peek_span() }),
        }
    }

    /// factor := NUMBER | STRING | IDENT | '(' expression ')' | BUILTIN '(' expression ')'
    fn parse_factor(&mut self) -> (r: Result<Expression, NumerusError>)
        ensures
            final(self)@.tokens == old(self)@.tokens,
            ({
                let (sr, j) = spec_parse_factor(old(self)@.tokens, old(self)@.current);
                final(self)@.current == j && (r matches Ok(e) ==> sr == Ok::<
                    SpecExpression,
                    SpecNumerusError,
                >(e@)) && (r matches Err(e) ==> sr == Err::<SpecExpression, SpecNumerusError>(e@))
            }),
            r is Ok ==> final(self)@.current > old(self)@.current,
        decreases self@.tokens.len() - self@.current, 1int,
    {
        proof {
            use_type_invariant(&*self);
        }
        let t_kind = self.peek_kind();
        let t_span = self.peek_span();
        match t_kind {
            TokenKind::ArabicLiteral(n) => {
                self.bump();
                Ok(
                    Expression::NumberLiteral {
                        value: n,
                        original_form: NumberForm::Arabic,
                        span: t_span,
                    },
                )
            },
            TokenKind::RomanLiteral(n) => {
                self.bump();
                Ok(
                    Expression::NumberLiteral {
                        value: n,
                        original_form: NumberForm::Roman,
                        span: t_span,
                    },
                )
            },
            TokenKind::StringLiteral(s) => {
                self.bump();
                Ok(Expression::StringLiteral { value: s, span: t_span })
            },
            TokenKind::Identifier(name) => {
                self.bump();
                Ok(Expression::Variable { name, span: t_span })
            },
            TokenKind::LeftParen => {
                self.bump();
                let inner = match self.parse_expression() {
                    Ok(e) => e,
                    Err(e) => return Err(e),
                };
                let close = match self.expect_token(TokenKind::RightParen) {
                    Ok(sp) => sp,
                    Err(e) => return Err(e),
                };
                Ok(Expression::Grouped { inner: Box::new(inner), span: t_span.merge(&close) })
            },
            TokenKind::Romaniza => self.parse_function_call(BuiltinFunction::Romaniza),
            TokenKind::Arabiza => self.parse_function_call(BuiltinFunction::Arabiza),
            TokenKind::Exprime => self.parse_function_call(BuiltinFunction::Exprime),
            _ => {
                let after = if self.current > 0 {
                    String::from_str(self.tokens[self.current - 1].kind.name())
                } else {
                    String::from_str("start")
                };
                Err(NumerusError::ExpectedExpression { after, span: t_span })
            },
        }
    }

    /// A built-in call: the keyword, then one parenthesized argument.
    fn parse_function_call(&mut self, function: BuiltinFunction) -> (r: Result<
        Expression,
        NumerusError,
    >)
        ensures
            final(self)@.tokens == old(self)@.tokens,
            ({
                let (sr, j) = spec_parse_function_call(
                    old(self)@.tokens,
                    old(self)@.current,
                    function,
                );
                final(self)@.current == j && (r matches Ok(e) ==> sr == Ok::<
                    SpecExpression,
                    SpecNumerusError,
                >(e@)) && (r matches Err(e) ==> sr == Err::<SpecExpression, SpecNumerusError>(e@))
            }),
            r is Ok ==> final(self)@.current > old(self)@.current,
        decreases self@.tokens.len() - self@.current, 0int,
    {
        proof {
            use_type_invariant(&*self);
        }
        let start = self.peek_span();
        self.bump();
        match self.expect_token(TokenKind::LeftParen) {
            Err(e) => return Err(e),
            Ok(_) => {},
        }
        let argument = match self.parse_expression() {
            Ok(e) => e,
            Err(e) => return Err(e),
        };
        let end = match self.expect_token(TokenKind::RightParen) {
            Ok(sp) => sp,
            Err(e) => return Err(e),
        };
        Ok(
            Expression::FunctionCall {
                function,
                argument: Box::new(argument),
                span: start.merge(&end),
            },
        )
    }

    /// multiplicative := factor ( (MULTIPLICA|DIVIDE) factor )*
    fn parse_multiplicative(&mut self) -> (r: Result<Expression, NumerusError>)
        ensures
            final(self)@.tokens == old(self)@.tokens,
            ({
                let (sr, j) = spec_parse_multiplicative(old(self)@.tokens, old(self)@.current);
                final(self)@.current == j && (r matches Ok(e) ==> sr == Ok::<
                    SpecExpression,
                    SpecNumerusError,
                >(e@)) && (r matches Err(e) ==> sr == Err::<SpecExpression, SpecNumerusError>(e@))
            }),
            r is Ok ==> final(self)@.current > old(self)@.current,
        decreases self@.tokens.len() - self@.current, 2int,
    {
        let ghost ts = self@.tokens;
        let ghost i0 = self@.current;
        let mut left = match self.parse_factor() {
            Ok(e) => e,
            Err(e) => return Err(e),
        };
        proof {
            use_type_invariant(&*self);
        }
        while self.peek_is_mult()
            invariant
                ts == old(self)@.tokens,
                i0 == old(self)@.current,
                self@.tokens == ts,
                i0 < self@.current <= ts.len(),
                spec_parse_multiplicative(ts, i0) == spec_parse_mult_rest(
                    ts,
                    self@.current,
                    left@,
                ),
            decreases ts.len() - self@.current,
        {
            let ghost k0 = self@.current;
            let op = if self.peek_is_mult_op() {
                BinaryOperator::Multiply
            } else {
                BinaryOperator::Divide
            };
            self.bump();
            let right = match self.parse_factor() {
                Ok(e) => e,
                Err(e) => return Err(e),
            };
            let span = left.span().merge(&right.span());
            left = Expression::BinaryOp {
                left: Box::new(left),
                operator: op,
                right: Box::new(right),
                span,
            };
            proof {
                use_type_invariant(&*self);
            }
        }
        Ok(left)
    }

    fn peek_is_mult_op(&self) -> (r: bool)
        ensures
            r == (spec_tok_at(self@.tokens, self@.current).kind is Multiplica),
    {
        proof {
            use_type_invariant(self);
        }
        match self.tokens[self.current].kind {
            TokenKind::Multiplica => true,
            _ => false,
        }
    }

    fn peek_is_add_op(&self) -> (r: bool)
        ensures
            r == (spec_tok_at(self@.tokens, self@.current).kind is Addius),
    {
        proof {
            use_type_invariant(self);
        }
        match self.tokens[self.current].kind {
            TokenKind::Addius => true,
            _ => false,
        }
    }

    /// additive := multiplicative ( (ADDIUS|SUBTRAHE) multiplicative )*
    fn parse_additive(&mut self) -> (r: Result<Expression, NumerusError>)
        ensures
            final(self)@.tokens == old(self)@.tokens,
            ({
                let (sr, j) = spec_parse_additive(old(self)@.tokens, old(self)@.current);
                final(self)@.current == j && (r matches Ok(e) ==> sr == Ok::<
                    SpecExpression,
                    SpecNumerusError,
                >(e@)) && (r matches Err(e) ==> sr == Err::<SpecExpression, SpecNumerusError>(e@))
            }),
            r is Ok ==> final(self)@.current > old(self)@.current,
        decreases self@.tokens.len() - self@.current, 4int,
    {
        let ghost ts = self@.tokens;
        let ghost i0 = self@.current;
        let mut left = match self.parse_multiplicative() {
            Ok(e) => e,
            Err(e) => return Err(e),
        };
        proof {
            use_type_invariant(&*self);
        }
        while self.peek_is_add()
            invariant
                ts == old(self)@.tokens,
                i0 == old(self)@.current,
                self@.tokens == ts,
                i0 < self@.current <= ts.len(),
                spec_parse_additive(ts, i0) == spec_parse_add_rest(ts, self@.current, left@),
            decreases ts.len() - self@.current,
        {
            let ghost k0 = self@.current;
            let op = if self.peek_is_add_op() {
                BinaryOperator::Add
            } else {
                BinaryOperator::Subtract
            };
            self.bump();
            let right = match self.parse_multiplicative() {
                Ok(e) => e,
                Err(e) => return Err(e),
            };
            let span = left.span().merge(&right.span());
            left = Expression::BinaryOp {
                left: Box::new(left),
                operator: op,
                right: Box::new(right),
                span,
            };
            proof {
                use_type_invariant(&*self);
            }
        }
        Ok(left)
    }

    /// expression := additive
    fn parse_expression(&mut self) -> (r: Result<Expression, NumerusError>)
        ensures
            final(self)@.tokens == old(self)@.tokens,
            ({
                let (sr, j) = spec_parse_expression(old(self)@.tokens, old(self)@.current);
                final(self)@.current == j && (r matches Ok(e) ==> sr == Ok::<
                    SpecExpression,
                    SpecNumerusError,
                >(e@)) && (r matches Err(e) ==> sr == Err::<SpecExpression, SpecNumerusError>(e@))
            }),
            r is Ok ==> final(self)@.current > old(self)@.current,
        decreases self@.tokens.len() - self@.current, 5int,
    {
        self.parse_additive()
    }

    /// DECLARA <ident> EST <expr>
    fn parse_declaration(&mut self) -> (r: Result<Statement, NumerusError>)
        ensures
            final(self)@.tokens == old(self)@.tokens,
            ({
                let (sr, j) = spec_parse_declaration(old(self)@.tokens, old(self)@.current);
                final(self)@.current == j && (r matches Ok(st) ==> sr == Ok::<
                    SpecStatement,
                    SpecNumerusError,
                >(st@)) && (r matches Err(e) ==> sr == Err::<SpecStatement, SpecNumerusError>(e@))
            }),
            r is Ok ==> final(self)@.current > old(self)@.current,
        decreases self@.tokens.len() - self@.current, 6int,
    {
        proof {
            use_type_invariant(&*self);
        }
        let start_span = self.peek_span();
        self.bump();
        let name = match self.expect_identifier() {
            Ok(n) => n,
            Err(e) => return Err(e),
        };
        match self.expect_token(TokenKind::Est) {
            Err(e) => return Err(e),
            Ok(_) => {},
        }
        let value = match self.parse_expression() {
            Ok(e) => e,
            Err(e) => return Err(e),
        };
        let span = start_span.merge(&value.span());
        Ok(Statement::Declaration { name, value, span })
    }

    /// <ident> EST <expr>
    fn parse_assignment(&mut self) -> (r: Result<Statement, NumerusError>)
        ensures
            final(self)@.tokens == old(self)@.tokens,
            ({
                let (sr, j) = spec_parse_assignment(old(self)@.tokens, old(self)@.current);
                final(self)@.current == j && (r matches Ok(st) ==> sr == Ok::<
                    SpecStatement,
                    SpecNumerusError,
                >(st@)) && (r matches Err(e) ==> sr == Err::<SpecStatement, SpecNumerusError>(e@))
            }),
            r is Ok ==> final(self)@.current > old(self)@.current,
        decreases self@.tokens.len() - self@.current, 6int,
    {
        proof {
            use_type_invariant(&*self);
        }
        let t_span = self.peek_span();
        let name_opt = match &self.tokens[self.current].kind {
            TokenKind::Identifier(s) => Some(s.clone()),
            _ => None,
        };
        self.bump();
        let name = match name_opt {
            Some(n) => n,
            None => return Err(NumerusError::ExpectedIdentifier { span: t_span }),
        };
        match self.expect_token(TokenKind::Est) {
            Err(e) => return Err(e),
            Ok(_) => {},
        }
        let value = match self.parse_expression() {
            Ok(e) => e,
            Err(e) => return Err(e),
        };
        let span = t_span.merge(&value.span());
        Ok(Statement::Assignment { name, value, span })
    }

    /// SCRIBE ( <expr> )
    fn parse_print(&mut self) -> (r: Result<Statement, NumerusError>)
        ensures
            final(self)@.tokens == old(self)@.tokens,
            ({
                let (sr, j) = spec_parse_print(old(self)@.tokens, old(self)@.current);
                final(self)@.current == j && (r matches Ok(st) ==> sr == Ok::<
                    SpecStatement,
                    SpecNumerusError,
                >(st@)) && (r matches Err(e) ==> sr == Err::<SpecStatement, SpecNumerusError>(e@))
            }),
            r is Ok ==> final(self)@.current > old(self)@.current,
        decreases self@.tokens.len() - self@.current, 6int,
    {
        proof {
            use_type_invariant(&*self);
        }
        let start_span = self.peek_span();
        self.bump();
        match self.expect_token(TokenKind::LeftParen) {
            Err(e) => return Err(e),
            Ok(_) => {},
        }
        let value = match self.parse_expression() {
            Ok(e) => e,
            Err(e) => return Err(e),
        };
        let end = match self.expect_token(TokenKind::RightParen) {
            Ok(sp) => sp,
            Err(e) => return Err(e),
        };
        Ok(Statement::Print { value, span: start_span.merge(&end) })
    }

    /// One statement, dispatched on its leading token.
    fn parse_statement(&mut self) -> (r: Result<Statement, NumerusError>)
        ensures
            final(self)@.tokens == old(self)@.tokens,
            ({
                let (sr, j) = spec_parse_statement(old(self)@.tokens, old(self)@.current);
                final(self)@.current == j && (r matches Ok(st) ==> sr == Ok::<
                    SpecStatement,
                    SpecNumerusError,
                >(st@)) && (r matches Err(e) ==> sr == Err::<SpecStatement, SpecNumerusError>(e@))
            }),
            r is Ok ==> final(self)@.current > old(self)@.current,
        decreases self@.tokens.len() - self@.current, 7int,
    {
        proof {
            use_type_invariant(&*self);
        }
        let t_kind = self.peek_kind();
        let t_span = self.peek_span();
        match t_kind {
            TokenKind::Declara => self.parse_declaration(),
            TokenKind::Scribe => self.parse_print(),
            TokenKind::Avtem => {
                self.bump();
                Ok(Statement::Avtem { span: t_span })
            },
            TokenKind::Comment(text) => {
                self.bump();
                Ok(Statement::Comment { text, span: t_span })
            },
            TokenKind::Identifier(_) => self.parse_assignment(),
            TokenKind::Eof => Err(NumerusError::UnexpectedEndOfInput),
            _ => Err(
                NumerusError::UnexpectedToken {
                    expected: String::from_str("DECLARA, SCRIBE, AVTEM, or identifier"),
                    found: String::from_str(t_kind.name()),
                    span: t_span,
                },
            ),
        }
    }

    /// Parse the whole program: statements until end-of-input, or the first
    /// syntax error.
    pub fn parse(&mut self) -> (r: Result<Program, NumerusError>)
        ensures
            r matches Ok(p) ==> spec_parse_program(old(self)@.tokens, old(self)@.current) == Ok::<
                Seq<SpecStatement>,
                SpecNumerusError,
            >(p@),
            r matches Err(e) ==> spec_parse_program(old(self)@.tokens, old(self)@.current) == Err::<
                Seq<SpecStatement>,
                SpecNumerusError,
            >(e@),
    {
        let ghost ts = self@.tokens;
        let ghost full = spec_parse_program(ts, self@.current);
        let mut statements: Vec<Statement> = Vec::new();
        proof {
            use_type_invariant(&*self);
            assert(statements@.map_values(|st: Statement| st@) =~= Seq::<SpecStatement>::empty());
        }
        while !self.is_at_end()
            invariant
                ts == old(self)@.tokens,
                full == spec_parse_program(old(self)@.tokens, old(self)@.current),
                self@.tokens == ts,
                self@.current <= ts.len(),
                full == (match spec_parse_program(ts, self@.current) {
                    Ok(rest) => Ok::<Seq<SpecStatement>, SpecNumerusError>(
                        statements@.map_values(|st: Statement| st@) + rest,
                    ),
                    Err(e) => Err::<Seq<SpecStatement>, SpecNumerusError>(e),
                }),
            decreases ts.len() - self@.current,
        {
            let ghost c0 = self@.current;
            let ghost pre = statements@.map_values(|st: Statement| st@);
            match self.parse_statement() {
                Err(e) => {
                    return Err(e);
                },
                Ok(st) => {
                    let ghost stv = st@;
                    statements.push(st);
                    proof {
                        use_type_invariant(&*self);
                        assert(statements@.map_values(|st: Statement| st@) =~= pre.push(stv));
                        if spec_parse_program(ts, self@.current) is Ok {
                            let rest = spec_parse_program(ts, self@.current)->Ok_0;
                            assert(pre + (seq![stv] + rest) =~= pre.push(stv) + rest);
                        }
                    }
                },
            }
        }
        proof {
            assert(statements@.map_values(|st: Statement| st@) + Seq::<SpecStatement>::empty()
                =~= statements@.map_values(|st: Statement| st@));
        }
        Ok(Program::new(statements))
    }
}

} // verus!
