//! Lexer: turns source text into a token stream terminated by an end-of-input
//! token, or fails with the first lexical error. Whitespace is skipped;
//! newlines and comments are recognised but filtered out of the stream.

use vstd::prelude::*;

use crate::error::{NumerusError, SpecNumerusError};
use crate::roman::{from_roman, is_roman_char, looks_like_roman, spec_from_roman};
use crate::span::Span;
use crate::text::{char_string, chars_of_str, push_char, str_eq, string_of_range};
use crate::token::{SpecToken, SpecTokenKind, Token, TokenKind};

verus! {

pub open spec fn spec_is_ws(c: char) -> bool {
    c == ' ' || c == '\t' || c == '\r'
}

pub open spec fn spec_is_digit(c: char) -> bool {
    '0' <= c && c <= '9'
}

pub open spec fn spec_is_word_start(c: char) -> bool {
    ('A' <= c && c <= 'Z') || ('a' <= c && c <= 'z') || c == '_'
}

pub open spec fn spec_is_word_char(c: char) -> bool {
    spec_is_word_start(c) || spec_is_digit(c)
}

/// The end of the maximal run of identifier characters starting at `i`.
pub open spec fn spec_word_end(s: Seq<char>, i: int) -> int
    decreases s.len() - i,
{
    if !(0 <= i < s.len()) {
        i
    } else if spec_is_word_char(s[i]) {
        spec_word_end(s, i + 1)
    } else {
        i
    }
}

/// The end of the maximal run of decimal digits starting at `i`.
pub open spec fn spec_digits_end(s: Seq<char>, i: int) -> int
    decreases s.len() - i,
{
    if !(0 <= i < s.len()) {
        i
    } else if spec_is_digit(s[i]) {
        spec_digits_end(s, i + 1)
    } else {
        i
    }
}

/// The first index at or after `i` holding a closing quote or a newline.
pub open spec fn spec_string_end(s: Seq<char>, i: int) -> int
    decreases s.len() - i,
{
    if !(0 <= i < s.len()) {
        i
    } else if s[i] != '"' && s[i] != '\n' {
        spec_string_end(s, i + 1)
    } else {
        i
    }
}

/// The first index at or after `i` holding a newline.
pub open spec fn spec_line_end(s: Seq<char>, i: int) -> int
    decreases s.len() - i,
{
    if !(0 <= i < s.len()) {
        i
    } else if s[i] != '\n' {
        spec_line_end(s, i + 1)
    } else {
        i
    }
}

pub open spec fn spec_digit_val(c: char) -> int {
    if c == '0' {
        0
    } else if c == '1' {
        1
    } else if c == '2' {
        2
    } else if c == '3' {
        3
    } else if c == '4' {
        4
    } else if c == '5' {
        5
    } else if c == '6' {
        6
    } else if c == '7' {
        7
    } else if c == '8' {
        8
    } else {
        9
    }
}

/// The integer denoted by a run of decimal digits.
pub open spec fn spec_digits_value(s: Seq<char>) -> int
    decreases s.len(),
{
    if s.len() == 0 {
        0
    } else {
        spec_digits_value(s.drop_last()) * 10 + spec_digit_val(s.last())
    }
}

/// A value squeezed into the range of the out-of-range error payload.
pub open spec fn spec_clamp_i64(v: int) -> int {
    if v > 0x7fff_ffff_ffff_ffff {
        0x7fff_ffff_ffff_ffff
    } else {
        v
    }
}

/// How a word is classified once the keyword table has been consulted: a
/// keyword, a Roman-numeral literal (at least two characters, Roman symbols
/// only, canonically encoded), or an identifier.
pub open spec fn spec_classify_word(w: Seq<char>) -> SpecTokenKind {
    if w == "DECLARA"@ {
        SpecTokenKind::Declara
    } else if w == "EST"@ {
        SpecTokenKind::Est
    } else if w == "ADDIUS"@ {
        SpecTokenKind::Addius
    } else if w == "SUBTRAHE"@ {
        SpecTokenKind::Subtrahe
    } else if w == "MULTIPLICA"@ {
        SpecTokenKind::Multiplica
    } else if w == "DIVIDE"@ {
        SpecTokenKind::Divide
    } else if w == "SCRIBE"@ {
        SpecTokenKind::Scribe
    } else if w == "AVTEM"@ {
        SpecTokenKind::Avtem
    } else if w == "ROMANIZA"@ {
        SpecTokenKind::Romaniza
    } else if w == "ARABIZA"@ {
        SpecTokenKind::Arabiza
    } else if w == "EXPRIME"@ {
        SpecTokenKind::Exprime
    } else if w.len() >= 2 && (forall|i: int| 0 <= i < w.len() ==> is_roman_char(w[i]))
        && spec_from_roman(w) is Ok {
        SpecTokenKind::RomanLiteral(spec_from_roman(w)->Ok_0)
    } else {
        SpecTokenKind::Identifier(w)
    }
}

/// Clamped advance: the scan end `j`, but at least one character past `pos`
/// and at most the input length, so that the lexer always moves forward.
pub open spec fn spec_advance_to(pos: int, j: int, len: int) -> int {
    if pos < j && j <= len {
        j
    } else {
        pos + 1
    }
}

/// The token stream of the source from the given position, line and column
/// on, ending in an end-of-input token, or the first lexical error. Newline
/// and comment tokens are recognised but not emitted.
pub open spec fn spec_lex(s: Seq<char>, pos: int, line: int, col: int) -> Result<
    Seq<SpecToken>,
    SpecNumerusError,
>
    decreases s.len() - pos,
{
    if !(0 <= pos < s.len()) {
        Ok(
            seq![
                SpecToken {
                    kind: SpecTokenKind::Eof,
                    span: Span { start: pos as usize, end: pos as usize, line: line as usize, column: col as usize },
                    lexeme: Seq::empty(),
                },
            ],
        )
    } else {
        let c = s[pos];
        if spec_is_ws(c) {
            spec_lex(s, pos + 1, line, col + 1)
        } else if c == '\n' {
            spec_lex(s, pos + 1, line + 1, 1)
        } else if c == '(' || c == ')' || c == '{' || c == '}' || c == ',' {
            let kind = if c == '(' {
                SpecTokenKind::LeftParen
            } else if c == ')' {
                SpecTokenKind::RightParen
            } else if c == '{' {
                SpecTokenKind::LeftBrace
            } else if c == '}' {
                SpecTokenKind::RightBrace
            } else {
                SpecTokenKind::Comma
            };
            let tok = SpecToken {
                kind,
                span: Span {
                    start: pos as usize,
                    end: (pos + 1) as usize,
                    line: line as usize,
                    column: col as usize,
                },
                lexeme: seq![c],
            };
            match spec_lex(s, pos + 1, line, col + 1) {
                Err(e) => Err(e),
                Ok(ts) => Ok(seq![tok] + ts),
            }
        } else if c == '"' {
            let j = spec_advance_to(pos, spec_string_end(s, pos + 1), s.len() as int);
            if j >= s.len() || s[j] == '\n' {
                Err(SpecNumerusError::UnterminatedString { line })
            } else {
                let content = s.subrange(pos + 1, j);
                let tok = SpecToken {
                    kind: SpecTokenKind::StringLiteral(content),
                    span: Span {
                        start: pos as usize,
                        end: (j + 1) as usize,
                        line: line as usize,
                        column: col as usize,
                    },
                    lexeme: seq!['"'] + content + seq!['"'],
                };
                match spec_lex(s, j + 1, line, col + (j + 1 - pos)) {
                    Err(e) => Err(e),
                    Ok(ts) => Ok(seq![tok] + ts),
                }
            }
        } else if spec_is_word_start(c) {
            let j = spec_advance_to(pos, spec_word_end(s, pos), s.len() as int);
            let w = s.subrange(pos, j);
            if w == "NOTA"@ && j < s.len() && s[j] == ':' {
                let k = spec_advance_to(j, spec_line_end(s, j + 1), s.len() as int);
                spec_lex(s, k, line, col + (k - pos))
            } else {
                let tok = SpecToken {
                    kind: spec_classify_word(w),
                    span: Span {
                        start: pos as usize,
                        end: j as usize,
                        line: line as usize,
                        column: col as usize,
                    },
                    lexeme: w,
                };
                match spec_lex(s, j, line, col + (j - pos)) {
                    Err(e) => Err(e),
                    Ok(ts) => Ok(seq![tok] + ts),
                }
            }
        } else if spec_is_digit(c) {
            let j = spec_advance_to(pos, spec_digits_end(s, pos), s.len() as int);
            let w = s.subrange(pos, j);
            let value = spec_digits_value(w);
            let span = Span {
                start: pos as usize,
                end: j as usize,
                line: line as usize,
                column: col as usize,
            };
            if value > 3999 {
                Err(SpecNumerusError::NumberOutOfRange { value: spec_clamp_i64(value), span })
            } else {
                let tok = SpecToken { kind: SpecTokenKind::ArabicLiteral(value), span, lexeme: w };
                match spec_lex(s, j, line, col + (j - pos)) {
                    Err(e) => Err(e),
                    Ok(ts) => Ok(seq![tok] + ts),
                }
            }
        } else {
            Err(SpecNumerusError::UnexpectedCharacter { ch: c, line, column: col })
        }
    }
}

/// A successful lexing always produces at least one token, the last of which
/// is the end-of-input token.
pub proof fn lemma_spec_lex_ends_in_eof(s: Seq<char>, pos: int, line: int, col: int)
    ensures
        spec_lex(s, pos, line, col) matches Ok(ts) ==> ts.len() >= 1 && ts.last().kind is Eof,
    decreases s.len() - pos,
{
    if !(0 <= pos < s.len()) {
    } else {
        let c = s[pos];
        if spec_is_ws(c) {
            lemma_spec_lex_ends_in_eof(s, pos + 1, line, col + 1);
        } else if c == '\n' {
            lemma_spec_lex_ends_in_eof(s, pos + 1, line + 1, 1);
        } else if c == '(' || c == ')' || c == '{' || c == '}' || c == ',' {
            lemma_spec_lex_ends_in_eof(s, pos + 1, line, col + 1);
        } else if c == '"' {
            let j = spec_advance_to(pos, spec_string_end(s, pos + 1), s.len() as int);
            if !(j >= s.len() || s[j] == '\n') {
                lemma_spec_lex_ends_in_eof(s, j + 1, line, col + (j + 1 - pos));
            }
        } else if spec_is_word_start(c) {
            let j = spec_advance_to(pos, spec_word_end(s, pos), s.len() as int);
            let w = s.subrange(pos, j);
            if w == "NOTA"@ && j < s.len() && s[j] == ':' {
                let k = spec_advance_to(j, spec_line_end(s, j + 1), s.len() as int);
                lemma_spec_lex_ends_in_eof(s, k, line, col + (k - pos));
            } else {
                lemma_spec_lex_ends_in_eof(s, j, line, col + (j - pos));
            }
        } else if spec_is_digit(c) {
            let j = spec_advance_to(pos, spec_digits_end(s, pos), s.len() as int);
            let w = s.subrange(pos, j);
            if !(spec_digits_value(w) > 3999) {
                lemma_spec_lex_ends_in_eof(s, j, line, col + (j - pos));
            }
        } else {
        }
    }
}

/// The models of a token vector.
pub open spec fn tokens_view(v: Seq<Token>) -> Seq<SpecToken> {
    v.map_values(|t: Token| t@)
}

/// The model of a lexing result.
pub open spec fn lex_result_view(r: Result<Vec<Token>, NumerusError>) -> Result<
    Seq<SpecToken>,
    SpecNumerusError,
> {
    match r {
        Ok(v) => Ok(tokens_view(v@)),
        Err(e) => Err(e@),
    }
}

/// The lexer's scanning state: the source characters and the current
/// position, 1-based line and 1-based column.
pub struct SpecLexer {
    pub input: Seq<char>,
    pub pos: int,
    pub line: int,
    pub col: int,
}

/// Character-by-character scanner over the source text.
pub struct Lexer {
    chars: Vec<char>,
    pos: usize,
    line: usize,
    column: usize,
}

impl View for Lexer {
    type V = SpecLexer;

    closed spec fn view(&self) -> SpecLexer {
        SpecLexer {
            input: self.chars@,
            pos: self.pos as int,
            line: self.line as int,
            col: self.column as int,
        }
    }
}

fn is_ws_char(c: char) -> (r: bool)
    ensures
        r == spec_is_ws(c),
{
    c == ' ' || c == '\t' || c == '\r'
}

fn is_digit_char(c: char) -> (r: bool)
    ensures
        r == spec_is_digit(c),
{
    '0' <= c && c <= '9'
}

fn is_word_start_char(c: char) -> (r: bool)
    ensures
        r == spec_is_word_start(c),
{
    ('A' <= c && c <= 'Z') || ('a' <= c && c <= 'z') || c == '_'
}

fn is_word_char(c: char) -> (r: bool)
    ensures
        r == spec_is_word_char(c),
{
    is_word_start_char(c) || is_digit_char(c)
}

fn digit_val(c: char) -> (d: u8)
    ensures
        d as int == spec_digit_val(c),
        d <= 9,
{
    if c == '0' {
        0
    } else if c == '1' {
        1
    } else if c == '2' {
        2
    } else if c == '3' {
        3
    } else if c == '4' {
        4
    } else if c == '5' {
        5
    } else if c == '6' {
        6
    } else if c == '7' {
        7
    } else if c == '8' {
        8
    } else {
        9
    }
}

fn word_end(v: &Vec<char>, i: usize) -> (j: usize)
    requires
        i <= v@.len(),
    ensures
        j as int == spec_word_end(v@, i as int),
        i <= j <= v@.len(),
        forall|k: int| i <= k < j ==> spec_is_word_char(#[trigger] v@[k]),
        (i < v@.len() && spec_is_word_char(v@[i as int])) ==> j > i,
{
    let n = v.len();
    let mut j = i;
    while j < n
        invariant
            i <= j <= n,
            n == v@.len(),
            spec_word_end(v@, i as int) == spec_word_end(v@, j as int),
            forall|k: int| i <= k < j ==> spec_is_word_char(#[trigger] v@[k]),
        decreases n - j,
    {
        if !is_word_char(v[j]) {
            return j;
        }
        j = j + 1;
    }
    j
}

fn digits_end(v: &Vec<char>, i: usize) -> (j: usize)
    requires
        i <= v@.len(),
    ensures
        j as int == spec_digits_end(v@, i as int),
        i <= j <= v@.len(),
        forall|k: int| i <= k < j ==> spec_is_digit(#[trigger] v@[k]),
        (i < v@.len() && spec_is_digit(v@[i as int])) ==> j > i,
{
    let n = v.len();
    let mut j = i;
    while j < n
        invariant
            i <= j <= n,
            n == v@.len(),
            spec_digits_end(v@, i as int) == spec_digits_end(v@, j as int),
            forall|k: int| i <= k < j ==> spec_is_digit(#[trigger] v@[k]),
        decreases n - j,
    {
        if !is_digit_char(v[j]) {
            return j;
        }
        j = j + 1;
    }
    j
}

fn string_end(v: &Vec<char>, i: usize) -> (j: usize)
    requires
        i <= v@.len(),
    ensures
        j as int == spec_string_end(v@, i as int),
        i <= j <= v@.len(),
        j < v@.len() ==> (v@[j as int] == '"' || v@[j as int] == '\n'),
{
    let n = v.len();
    let mut j = i;
    while j < n
        invariant
            i <= j <= n,
            n == v@.len(),
            spec_string_end(v@, i as int) == spec_string_end(v@, j as int),
        decreases n - j,
    {
        let c = v[j];
        if c == '"' || c == '\n' {
            return j;
        }
        j = j + 1;
    }
    j
}

fn line_end(v: &Vec<char>, i: usize) -> (j: usize)
    requires
        i <= v@.len(),
    ensures
        j as int == spec_line_end(v@, i as int),
        i <= j <= v@.len(),
{
    let n = v.len();
    let mut j = i;
    while j < n
        invariant
            i <= j <= n,
            n == v@.len(),
            spec_line_end(v@, i as int) == spec_line_end(v@, j as int),
        decreases n - j,
    {
        if v[j] == '\n' {
            return j;
        }
        j = j + 1;
    }
    j
}

/// The saturated form of a digit-run value: exact up to `i64::MAX`, one past
/// it for anything larger.
pub open spec fn spec_value_sat(x: int) -> int {
    if x > 0x7fff_ffff_ffff_ffff {
        0x8000_0000_0000_0000
    } else {
        x
    }
}

fn digits_value_clamped(v: &Vec<char>, i: usize, j: usize) -> (r: u128)
    requires
        i <= j <= v@.len(),
        forall|k: int| i <= k < j ==> spec_is_digit(#[trigger] v@[k]),
    ensures
        r as int == spec_value_sat(spec_digits_value(v@.subrange(i as int, j as int))),
{
    let mut r: u128 = 0;
    let mut k = i;
    proof {
        assert(v@.subrange(i as int, i as int) =~= Seq::<char>::empty());
    }
    while k < j
        invariant
            i <= k <= j <= v@.len(),
            forall|m: int| i <= m < j ==> spec_is_digit(#[trigger] v@[m]),
            r as int == spec_value_sat(spec_digits_value(v@.subrange(i as int, k as int))),
            r <= 0x8000_0000_0000_0000,
        decreases j - k,
    {
        let d = digit_val(v[k]);
        let ghost pre = v@.subrange(i as int, k as int);
        r = r * 10 + d as u128;
        if r > 0x7fff_ffff_ffff_ffff {
            r = 0x8000_0000_0000_0000;
        }
        k = k + 1;
        proof {
            let cur = v@.subrange(i as int, k as int);
            assert(cur.drop_last() =~= pre);
            assert(cur.last() == v@[k - 1]);
        }
    }
    r
}

/// The keyword table, with the Roman-numeral disambiguation rule: a word of
/// at least two characters made only of Roman symbols that decodes
/// canonically becomes a numeral literal; everything else unknown is an
/// identifier.
fn classify_word(w: &str) -> (k: TokenKind)
    ensures
        k@ == spec_classify_word(w@),
{
    if str_eq(w, "DECLARA") {
        TokenKind::Declara
    } else if str_eq(w, "EST") {
        TokenKind::Est
    } else if str_eq(w, "ADDIUS") {
        TokenKind::Addius
    } else if str_eq(w, "SUBTRAHE") {
        TokenKind::Subtrahe
    } else if str_eq(w, "MULTIPLICA") {
        TokenKind::Multiplica
    } else if str_eq(w, "DIVIDE") {
        TokenKind::Divide
    } else if str_eq(w, "SCRIBE") {
        TokenKind::Scribe
    } else if str_eq(w, "AVTEM") {
        TokenKind::Avtem
    } else if str_eq(w, "ROMANIZA") {
        TokenKind::Romaniza
    } else if str_eq(w, "ARABIZA") {
        TokenKind::Arabiza
    } else if str_eq(w, "EXPRIME") {
        TokenKind::Exprime
    } else if w.unicode_len() >= 2 && looks_like_roman(w) {
        match from_roman(w) {
            Ok(value) => TokenKind::RomanLiteral(value),
            Err(_) => TokenKind::Identifier(w.to_owned()),
        }
    } else {
        TokenKind::Identifier(w.to_owned())
    }
}

impl Lexer {
    pub fn new(input: &str) -> (r: Lexer)
        ensures
            r@ == (SpecLexer { input: input@, pos: 0, line: 1, col: 1 }),
    {
        Lexer { chars: chars_of_str(input), pos: 0, line: 1, column: 1 }
    }

    /// Tokenize the entire input: the token stream ends with an end-of-input
    /// token; newlines and comments are recognised but not part of it.
    #[verifier::rlimit(100)]
    pub fn tokenize(&mut self) -> (r: Result<Vec<Token>, NumerusError>)
        requires
            old(self)@.input.len() < usize::MAX,
            old(self)@.pos <= old(self)@.input.len(),
            1 <= old(self)@.col <= old(self)@.pos + 1,
            1 <= old(self)@.line <= old(self)@.pos + 1,
        ensures
            lex_result_view(r) == spec_lex(
                old(self)@.input,
                old(self)@.pos,
                old(self)@.line,
                old(self)@.col,
            ),
    {
        let ghost s = self.chars@;
        let ghost full = spec_lex(s, self.pos as int, self.line as int, self.column as int);
        let mut out: Vec<Token> = Vec::new();
        let n = self.chars.len();
        proof {
            assert(tokens_view(out@) =~= Seq::<SpecToken>::empty());
        }
        while self.pos < n
            invariant
                full == spec_lex(
                    old(self)@.input,
                    old(self)@.pos,
                    old(self)@.line,
                    old(self)@.col,
                ),
                self.chars@ == s,
                n == s.len(),
                n < usize::MAX,
                self.pos <= n,
                1 <= self.column as int <= self.pos as int + 1,
                1 <= self.line as int <= self.pos as int + 1,
                full == (match spec_lex(s, self.pos as int, self.line as int, self.column as int) {
                    Ok(ts) => Ok::<Seq<SpecToken>, SpecNumerusError>(tokens_view(out@) + ts),
                    Err(e) => Err::<Seq<SpecToken>, SpecNumerusError>(e),
                }),
            decreases n - self.pos,
        {
            let ghost p0 = self.pos as int;
            let ghost l0 = self.line as int;
            let ghost c0 = self.column as int;
            let ghost out0 = out@;
            let c = self.chars[self.pos];
            if c == ' ' || c == '\t' || c == '\r' {
                self.pos = self.pos + 1;
                self.column = self.column + 1;
            } else if c == '\n' {
                self.pos = self.pos + 1;
                self.line = self.line + 1;
                self.column = 1;
            } else if c == '(' || c == ')' || c == '{' || c == '}' || c == ',' {
                let kind = if c == '(' {
                    TokenKind::LeftParen
                } else if c == ')' {
                    TokenKind::RightParen
                } else if c == '{' {
                    TokenKind::LeftBrace
                } else if c == '}' {
                    TokenKind::RightBrace
                } else {
                    TokenKind::Comma
                };
                let tok = Token::new(
                    kind,
                    Span::new(self.pos, self.pos + 1, self.line, self.column),
                    char_string(c),
                );
                out.push(tok);
                self.pos = self.pos + 1;
                self.column = self.column + 1;
                proof {
                    if spec_lex(s, p0 + 1, l0, c0 + 1) is Ok {
                        let ts = spec_lex(s, p0 + 1, l0, c0 + 1)->Ok_0;
                        assert(tokens_view(out@) =~= tokens_view(out0).push(out@.last()@));
                        assert(tokens_view(out0) + (seq![out@.last()@] + ts) =~= tokens_view(out@)
                            + ts);
                    }
                }
            } else if c == '"' {
                let start = self.pos;
                let start_col = self.column;
                let j = string_end(&self.chars, self.pos + 1);
                if j == n || self.chars[j] == '\n' {
                    proof {
                        assert(j as int == spec_advance_to(
                            p0,
                            spec_string_end(s, p0 + 1),
                            s.len() as int,
                        ));
                        assert(spec_lex(s, p0, l0, c0) == Err::<Seq<SpecToken>, SpecNumerusError>(
                            SpecNumerusError::UnterminatedString { line: l0 },
                        ));
                    }
                    return Err(NumerusError::UnterminatedString { line: self.line });
                }
                let content = string_of_range(&self.chars, start + 1, j);
                let mut lexeme = char_string('"');
                lexeme.append(content.as_str());
                push_char(&mut lexeme, '"');
                let tok = Token::new(
                    TokenKind::StringLiteral(content),
                    Span::new(start, j + 1, self.line, start_col),
                    lexeme,
                );
                out.push(tok);
                self.pos = j + 1;
                self.column = start_col + (j + 1 - start);
                proof {
                    assert(out@.last()@.lexeme =~= seq!['"'] + s.subrange(p0 + 1, j as int) + seq![
                        '"',
                    ]);
                    let nl = l0;
                    let nc = c0 + (j + 1 - p0);
                    if spec_lex(s, j as int + 1, nl, nc) is Ok {
                        let ts = spec_lex(s, j as int + 1, nl, nc)->Ok_0;
                        assert(tokens_view(out@) =~= tokens_view(out0).push(out@.last()@));
                        assert(tokens_view(out0) + (seq![out@.last()@] + ts) =~= tokens_view(out@)
                            + ts);
                    }
                }
            } else if is_word_start_char(c) {
                let start = self.pos;
                let start_col = self.column;
                let j = word_end(&self.chars, self.pos);
                let w = string_of_range(&self.chars, start, j);
                let is_comment = str_eq(w.as_str(), "NOTA") && j < n && {
                    let colon = self.chars[j];
                    colon == ':'
                };
                if is_comment {
                    let k = line_end(&self.chars, j + 1);
                    self.pos = k;
                    self.column = start_col + (k - start);
                } else {
                    let kind = classify_word(w.as_str());
                    let tok = Token::new(kind, Span::new(start, j, self.line, start_col), w);
                    out.push(tok);
                    self.pos = j;
                    self.column = start_col + (j - start);
                    proof {
                        let nc = c0 + (j - p0);
                        if spec_lex(s, j as int, l0, nc) is Ok {
                            let ts = spec_lex(s, j as int, l0, nc)->Ok_0;
                            assert(tokens_view(out@) =~= tokens_view(out0).push(out@.last()@));
                            assert(tokens_view(out0) + (seq![out@.last()@] + ts) =~= tokens_view(
                                out@,
                            ) + ts);
                        }
                    }
                }
            } else if is_digit_char(c) {
                let start = self.pos;
                let start_col = self.column;
                let j = digits_end(&self.chars, self.pos);
                let value = digits_value_clamped(&self.chars, start, j);
                let w = string_of_range(&self.chars, start, j);
                let span = Span::new(start, j, self.line, start_col);
                self.pos = j;
                self.column = start_col + (j - start);
                if value > 3999 {
                    let payload: i64 = if value > 0x7fff_ffff_ffff_ffff {
                        0x7fff_ffff_ffff_ffff
                    } else {
                        value as i64
                    };
                    return Err(NumerusError::NumberOutOfRange { value: payload, span });
                }
                let tok = Token::new(TokenKind::ArabicLiteral(value as i32), span, w);
                out.push(tok);
                proof {
                    let nc = c0 + (j - p0);
                    if spec_lex(s, j as int, l0, nc) is Ok {
                        let ts = spec_lex(s, j as int, l0, nc)->Ok_0;
                        assert(tokens_view(out@) =~= tokens_view(out0).push(out@.last()@));
                        assert(tokens_view(out0) + (seq![out@.last()@] + ts) =~= tokens_view(out@)
                            + ts);
                    }
                }
            } else {
                proof {
                    assert(spec_lex(s, p0, l0, c0) == Err::<Seq<SpecToken>, SpecNumerusError>(
                        SpecNumerusError::UnexpectedCharacter { ch: c, line: l0, column: c0 },
                    ));
                }
                return Err(
                    NumerusError::UnexpectedCharacter {
                        ch: c,
                        line: self.line,
                        column: self.column,
                    },
                );
            }
        }
        let eof = Token::new(
            TokenKind::Eof,
            Span::point(self.pos, self.line, self.column),
            String::new(),
        );
        let ghost outb = out@;
        out.push(eof);
        proof {
            assert(tokens_view(out@) =~= tokens_view(outb).push(out@.last()@));
            assert(tokens_view(outb) + seq![out@.last()@] =~= tokens_view(out@));
        }
        Ok(out)
    }
}

} // verus!
