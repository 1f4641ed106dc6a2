//! Tokens produced by the lexer and consumed by the parser.

use vstd::prelude::*;

use crate::span::Span;

verus! {

/// All token kinds of the language: keywords, built-in function names,
/// literals, identifiers, punctuation, and the special comment / newline /
/// end-of-input kinds.
#[derive(Debug, Clone, PartialEq)]
pub enum TokenKind {
    Declara,
    Est,
    Addius,
    Subtrahe,
    Multiplica,
    Divide,
    Scribe,
    Avtem,
    Romaniza,
    Arabiza,
    Exprime,
    ArabicLiteral(i32),
    RomanLiteral(i32),
    StringLiteral(String),
    Identifier(String),
    LeftParen,
    RightParen,
    LeftBrace,
    RightBrace,
    Comma,
    Comment(String),
    Newline,
    Eof,
}

/// Mathematical model of a `TokenKind`.
pub enum SpecTokenKind {
    Declara,
    Est,
    Addius,
    Subtrahe,
    Multiplica,
    Divide,
    Scribe,
    Avtem,
    Romaniza,
    Arabiza,
    Exprime,
    ArabicLiteral(int),
    RomanLiteral(int),
    StringLiteral(Seq<char>),
    Identifier(Seq<char>),
    LeftParen,
    RightParen,
    LeftBrace,
    RightBrace,
    Comma,
    Comment(Seq<char>),
    Newline,
    Eof,
}

impl View for TokenKind {
    type V = SpecTokenKind;

    open spec fn view(&self) -> SpecTokenKind {
        match self {
            TokenKind::Declara => SpecTokenKind::Declara,
            TokenKind::Est => SpecTokenKind::Est,
            TokenKind::Addius => SpecTokenKind::Addius,
            TokenKind::Subtrahe => SpecTokenKind::Subtrahe,
            TokenKind::Multiplica => SpecTokenKind::Multiplica,
            TokenKind::Divide => SpecTokenKind::Divide,
            TokenKind::Scribe => SpecTokenKind::Scribe,
            TokenKind::Avtem => SpecTokenKind::Avtem,
            TokenKind::Romaniza => SpecTokenKind::Romaniza,
            TokenKind::Arabiza => SpecTokenKind::Arabiza,
            TokenKind::Exprime => SpecTokenKind::Exprime,
            TokenKind::ArabicLiteral(n) => SpecTokenKind::ArabicLiteral(*n as int),
            TokenKind::RomanLiteral(n) => SpecTokenKind::RomanLiteral(*n as int),
            TokenKind::StringLiteral(s) => SpecTokenKind::StringLiteral(s@),
            TokenKind::Identifier(s) => SpecTokenKind::Identifier(s@),
            TokenKind::LeftParen => SpecTokenKind::LeftParen,
            TokenKind::RightParen => SpecTokenKind::RightParen,
            TokenKind::LeftBrace => SpecTokenKind::LeftBrace,
            TokenKind::RightBrace => SpecTokenKind::RightBrace,
            TokenKind::Comma => SpecTokenKind::Comma,
            TokenKind::Comment(s) => SpecTokenKind::Comment(s@),
            TokenKind::Newline => SpecTokenKind::Newline,
            TokenKind::Eof => SpecTokenKind::Eof,
        }
    }
}

/// Token with its kind, location and raw source text.
#[derive(Debug, Clone, PartialEq)]
pub struct Token {
    pub kind: TokenKind,
    pub span: Span,
    pub lexeme: String,
}

/// Mathematical model of a `Token`.
pub struct SpecToken {
    pub kind: SpecTokenKind,
    pub span: Span,
    pub lexeme: Seq<char>,
}

impl View for Token {
    type V = SpecToken;

    open spec fn view(&self) -> SpecToken {
        SpecToken { kind: self.kind@, span: self.span, lexeme: self.lexeme@ }
    }
}

impl Token {
    pub fn new(kind: TokenKind, span: Span, lexeme: String) -> (t: Token)
        ensures
            t.kind == kind,
            t.span == span,
            t.lexeme == lexeme,
    {
        Token { kind, span, lexeme }
    }
}

/// True of the four binary-operator kinds.
pub open spec fn spec_is_operator(k: SpecTokenKind) -> bool {
    k is Addius || k is Subtrahe || k is Multiplica || k is Divide
}

/// True of the two lower-precedence operator kinds.
pub open spec fn spec_is_additive(k: SpecTokenKind) -> bool {
    k is Addius || k is Subtrahe
}

/// True of the two higher-precedence operator kinds.
pub open spec fn spec_is_multiplicative(k: SpecTokenKind) -> bool {
    k is Multiplica || k is Divide
}

/// The human-readable name of a token kind, used in error messages.
pub open spec fn spec_kind_name(k: SpecTokenKind) -> Seq<char> {
    match k {
        SpecTokenKind::Declara => "DECLARA"@,
        SpecTokenKind::Est => "EST"@,
        SpecTokenKind::Addius => "ADDIUS"@,
        SpecTokenKind::Subtrahe => "SUBTRAHE"@,
        SpecTokenKind::Multiplica => "MULTIPLICA"@,
        SpecTokenKind::Divide => "DIVIDE"@,
        SpecTokenKind::Scribe => "SCRIBE"@,
        SpecTokenKind::Avtem => "AVTEM"@,
        SpecTokenKind::Romaniza => "ROMANIZA"@,
        SpecTokenKind::Arabiza => "ARABIZA"@,
        SpecTokenKind::Exprime => "EXPRIME"@,
        SpecTokenKind::ArabicLiteral(_) => "numerus Arabicus"@,
        SpecTokenKind::RomanLiteral(_) => "numerus Romanus"@,
        SpecTokenKind::StringLiteral(_) => "string"@,
        SpecTokenKind::Identifier(_) => "identificator"@,
        SpecTokenKind::LeftParen => "("@,
        SpecTokenKind::RightParen => ")"@,
        SpecTokenKind::LeftBrace => "{"@,
        SpecTokenKind::RightBrace => "}"@,
        SpecTokenKind::Comma => ","@,
        SpecTokenKind::Comment(_) => "NOTA"@,
        SpecTokenKind::Newline => "linea nova"@,
        SpecTokenKind::Eof => "finis"@,
    }
}

impl TokenKind {
    /// An exact copy of the kind.
    pub fn duplicate(&self) -> (r: TokenKind)
        ensures
            r@ == self@,
    {
        match self {
            TokenKind::Declara => TokenKind::Declara,
            TokenKind::Est => TokenKind::Est,
            TokenKind::Addius => TokenKind::Addius,
            TokenKind::Subtrahe => TokenKind::Subtrahe,
            TokenKind::Multiplica => TokenKind::Multiplica,
            TokenKind::Divide => TokenKind::Divide,
            TokenKind::Scribe => TokenKind::Scribe,
            TokenKind::Avtem => TokenKind::Avtem,
            TokenKind::Romaniza => TokenKind::Romaniza,
            TokenKind::Arabiza => TokenKind::Arabiza,
            TokenKind::Exprime => TokenKind::Exprime,
            TokenKind::ArabicLiteral(n) => TokenKind::ArabicLiteral(*n),
            TokenKind::RomanLiteral(n) => TokenKind::RomanLiteral(*n),
            TokenKind::StringLiteral(s) => TokenKind::StringLiteral(s.clone()),
            TokenKind::Identifier(s) => TokenKind::Identifier(s.clone()),
            TokenKind::LeftParen => TokenKind::LeftParen,
            TokenKind::RightParen => TokenKind::RightParen,
            TokenKind::LeftBrace => TokenKind::LeftBrace,
            TokenKind::RightBrace => TokenKind::RightBrace,
            TokenKind::Comma => TokenKind::Comma,
            TokenKind::Comment(s) => TokenKind::Comment(s.clone()),
            TokenKind::Newline => TokenKind::Newline,
            TokenKind::Eof => TokenKind::Eof,
        }
    }

    /// Returns true if this token is a binary operator.
    pub fn is_operator(&self) -> (r: bool)
        ensures
            r == spec_is_operator(self@),
    {
        match self {
            TokenKind::Addius | TokenKind::Subtrahe | TokenKind::Multiplica | TokenKind::Divide => {
                true
            },
            _ => false,
        }
    }

    /// Returns true if this is an additive operator (lower precedence).
    pub fn is_additive(&self) -> (r: bool)
        ensures
            r == spec_is_additive(self@),
    {
        match self {
            TokenKind::Addius | TokenKind::Subtrahe => true,
            _ => false,
        }
    }

    /// Returns true if this is a multiplicative operator (higher precedence).
    pub fn is_multiplicative(&self) -> (r: bool)
        ensures
            r == spec_is_multiplicative(self@),
    {
        match self {
            TokenKind::Multiplica | TokenKind::Divide => true,
            _ => false,
        }
    }

    /// Get human-readable name for error messages.
    pub fn name(&self) -> (r: &'static str)
        ensures
            r@ == spec_kind_name(self@),
    {
        match self {
            TokenKind::Declara => "DECLARA",
            TokenKind::Est => "EST",
            TokenKind::Addius => "ADDIUS",
            TokenKind::Subtrahe => "SUBTRAHE",
            TokenKind::Multiplica => "MULTIPLICA",
            TokenKind::Divide => "DIVIDE",
            TokenKind::Scribe => "SCRIBE",
            TokenKind::Avtem => "AVTEM",
            TokenKind::Romaniza => "ROMANIZA",
            TokenKind::Arabiza => "ARABIZA",
            TokenKind::Exprime => "EXPRIME",
            TokenKind::ArabicLiteral(_) => "numerus Arabicus",
            TokenKind::RomanLiteral(_) => "numerus Romanus",
            TokenKind::StringLiteral(_) => "string",
            TokenKind::Identifier(_) => "identificator",
            TokenKind::LeftParen => "(",
            TokenKind::RightParen => ")",
            TokenKind::LeftBrace => "{",
            TokenKind::RightBrace => "}",
            TokenKind::Comma => ",",
            TokenKind::Comment(_) => "NOTA",
            TokenKind::Newline => "linea nova",
            TokenKind::Eof => "finis",
        }
    }
}

} // verus!
