//! The error taxonomy of the language: lexical, syntax and runtime errors,
//! each carrying a source span where one is meaningful, with Latin-style
//! diagnostic messages.

use vstd::prelude::*;

use crate::span::Span;
use crate::text::{
    push_char, repeat_char, spec_decimal, spec_repeat, string_of_chars,
    decimal_string_i64, decimal_string_i32, decimal_string_usize,
};

verus! {

/// Mathematical model of a `NumerusError`: text payloads as character
/// sequences, integer payloads as unbounded integers.
pub enum SpecNumerusError {
    UnexpectedCharacter { ch: char, line: int, column: int },
    InvalidRomanNumeral { numeral: Seq<char>, span: Span },
    UnterminatedString { line: int },
    NumberOutOfRange { value: int, span: Span },
    UnexpectedToken { expected: Seq<char>, found: Seq<char>, span: Span },
    ExpectedExpression { after: Seq<char>, span: Span },
    UnclosedParenthesis { opening_span: Span },
    UnexpectedEndOfInput,
    ExpectedIdentifier { span: Span },
    UndefinedVariable { name: Seq<char> },
    VariableAlreadyDeclared { name: Seq<char> },
    DivisionByZero { span: Span },
    NegativeRomanConversion { value: int },
    RomanOverflow { value: int },
    IntegerOverflow { value: int },
    TypeMismatch { operation: Seq<char>, expected: Seq<char>, span: Span },
    InvalidFunctionArgument { name: Seq<char>, span: Span },
}

/// Every error the language can report.
#[derive(Debug, Clone, PartialEq)]
pub enum NumerusError {
    UnexpectedCharacter { ch: char, line: usize, column: usize },
    InvalidRomanNumeral { numeral: String, span: Span },
    UnterminatedString { line: usize },
    NumberOutOfRange { value: i64, span: Span },
    UnexpectedToken { expected: String, found: String, span: Span },
    ExpectedExpression { after: String, span: Span },
    UnclosedParenthesis { opening_span: Span },
    UnexpectedEndOfInput,
    ExpectedIdentifier { span: Span },
    UndefinedVariable { name: String },
    VariableAlreadyDeclared { name: String },
    DivisionByZero { span: Span },
    NegativeRomanConversion { value: i32 },
    RomanOverflow { value: i32 },
    IntegerOverflow { value: i64 },
    TypeMismatch { operation: String, expected: String, span: Span },
    InvalidFunctionArgument { name: String, span: Span },
}

impl View for NumerusError {
    type V = SpecNumerusError;

    open spec fn view(&self) -> SpecNumerusError {
        match self {
            NumerusError::UnexpectedCharacter { ch, line, column } => {
                SpecNumerusError::UnexpectedCharacter {
                    ch: *ch,
                    line: *line as int,
                    column: *column as int,
                }
            },
            NumerusError::InvalidRomanNumeral { numeral, span } => {
                SpecNumerusError::InvalidRomanNumeral { numeral: numeral@, span: *span }
            },
            NumerusError::UnterminatedString { line } => {
                SpecNumerusError::UnterminatedString { line: *line as int }
            },
            NumerusError::NumberOutOfRange { value, span } => {
                SpecNumerusError::NumberOutOfRange { value: *value as int, span: *span }
            },
            NumerusError::UnexpectedToken { expected, found, span } => {
                SpecNumerusError::UnexpectedToken {
                    expected: expected@,
                    found: found@,
                    span: *span,
                }
            },
            NumerusError::ExpectedExpression { after, span } => {
                SpecNumerusError::ExpectedExpression { after: after@, span: *span }
            },
            NumerusError::UnclosedParenthesis { opening_span } => {
                SpecNumerusError::UnclosedParenthesis { opening_span: *opening_span }
            },
            NumerusError::UnexpectedEndOfInput => SpecNumerusError::UnexpectedEndOfInput,
            NumerusError::ExpectedIdentifier { span } => {
                SpecNumerusError::ExpectedIdentifier { span: *span }
            },
            NumerusError::UndefinedVariable { name } => {
                SpecNumerusError::UndefinedVariable { name: name@ }
            },
            NumerusError::VariableAlreadyDeclared { name } => {
                SpecNumerusError::VariableAlreadyDeclared { name: name@ }
            },
            NumerusError::DivisionByZero { span } => {
                SpecNumerusError::DivisionByZero { span: *span }
            },
            NumerusError::NegativeRomanConversion { value } => {
                SpecNumerusError::NegativeRomanConversion { value: *value as int }
            },
            NumerusError::RomanOverflow { value } => {
                SpecNumerusError::RomanOverflow { value: *value as int }
            },
            NumerusError::IntegerOverflow { value } => {
                SpecNumerusError::IntegerOverflow { value: *value as int }
            },
            NumerusError::TypeMismatch { operation, expected, span } => {
                SpecNumerusError::TypeMismatch {
                    operation: operation@,
                    expected: expected@,
                    span: *span,
                }
            },
            NumerusError::InvalidFunctionArgument { name, span } => {
                SpecNumerusError::InvalidFunctionArgument { name: name@, span: *span }
            },
        }
    }
}

/// The span attached to an error, where one is meaningful; purely positional
/// lexical errors carry raw line/column instead and have none.
pub open spec fn spec_err_span(e: SpecNumerusError) -> Option<Span> {
    match e {
        SpecNumerusError::InvalidRomanNumeral { span, .. } => Some(span),
        SpecNumerusError::NumberOutOfRange { span, .. } => Some(span),
        SpecNumerusError::UnexpectedToken { span, .. } => Some(span),
        SpecNumerusError::ExpectedExpression { span, .. } => Some(span),
        SpecNumerusError::UnclosedParenthesis { opening_span } => Some(opening_span),
        SpecNumerusError::ExpectedIdentifier { span } => Some(span),
        SpecNumerusError::DivisionByZero { span } => Some(span),
        SpecNumerusError::TypeMismatch { span, .. } => Some(span),
        SpecNumerusError::InvalidFunctionArgument { span, .. } => Some(span),
        _ => None,
    }
}

/// The diagnostic message of an error, exactly as `message` renders it.
pub open spec fn spec_message(e: SpecNumerusError) -> Seq<char> {
    match e {
        SpecNumerusError::UnexpectedCharacter { ch, line, column } => {
            "ERRATUM LEXICUM: Character '"@ + seq![ch] + "' ignotum est in linea "@
                + spec_decimal(line) + ", columna "@ + spec_decimal(column) + "!"@
        },
        SpecNumerusError::InvalidRomanNumeral { numeral, .. } => {
            "ERRATUM LEXICUM: Numerus Romanus '"@ + numeral + "' invalidus est!"@
        },
        SpecNumerusError::UnterminatedString { line } => {
            "ERRATUM LEXICUM: String non terminata in linea "@ + spec_decimal(line) + "!"@
        },
        SpecNumerusError::NumberOutOfRange { value, .. } => {
            "ERRATUM LEXICUM: Numerus "@ + spec_decimal(value)
                + " extra fines est! (I-MMMCMXCIX solum)"@
        },
        SpecNumerusError::UnexpectedToken { expected, found, .. } => {
            "ERRATUM SYNTAXIS: Expectabatur '"@ + expected + "', sed inveni '"@ + found + "'!"@
        },
        SpecNumerusError::ExpectedExpression { after, .. } => {
            "ERRATUM SYNTAXIS: Expressio expectata post '"@ + after + "'!"@
        },
        SpecNumerusError::UnclosedParenthesis { .. } => {
            "ERRATUM SYNTAXIS: Parenthesis clausa ')' desideratur!"@
        },
        SpecNumerusError::UnexpectedEndOfInput => {
            "ERRATUM SYNTAXIS: Finis inexpectatus programmatis!"@
        },
        SpecNumerusError::ExpectedIdentifier { .. } => {
            "ERRATUM SYNTAXIS: Identificator expectatus!"@
        },
        SpecNumerusError::UndefinedVariable { name } => {
            "ERRATUM: Variable '"@ + name + "' non declarata est!"@
        },
        SpecNumerusError::VariableAlreadyDeclared { name } => {
            "ERRATUM: Variable '"@ + name + "' iam declarata est!"@
        },
        SpecNumerusError::DivisionByZero { .. } => {
            "ERRATUM: Divisio per nihilum prohibita est! (Etiam Romani hoc sciebant)"@
        },
        SpecNumerusError::NegativeRomanConversion { value } => {
            "ERRATUM: Numerus negativus "@ + spec_decimal(value)
                + " in Romanis exprimi non potest!"@
        },
        SpecNumerusError::RomanOverflow { value } => {
            "ERRATUM: Numerus "@ + spec_decimal(value)
                + " nimis magnus pro Romanis (maximum MMMCMXCIX)!"@
        },
        SpecNumerusError::IntegerOverflow { value } => {
            "ERRATUM: Numerus "@ + spec_decimal(value) + " nimis magnus vel parvus!"@
        },
        SpecNumerusError::TypeMismatch { operation, expected, .. } => {
            "ERRATUM: Operatio '"@ + operation + "' requirit "@ + expected + "!"@
        },
        SpecNumerusError::InvalidFunctionArgument { name, .. } => {
            "ERRATUM: Functio '"@ + name + "' argumentum invalidum accepit!"@
        },
    }
}

impl NumerusError {
    /// Get the span where this error occurred, if available.
    pub fn span(&self) -> (r: Option<Span>)
        ensures
            r == spec_err_span(self@),
    {
        match self {
            Self::InvalidRomanNumeral { span, .. } => Some(*span),
            Self::NumberOutOfRange { span, .. } => Some(*span),
            Self::UnexpectedToken { span, .. } => Some(*span),
            Self::ExpectedExpression { span, .. } => Some(*span),
            Self::UnclosedParenthesis { opening_span } => Some(*opening_span),
            Self::ExpectedIdentifier { span } => Some(*span),
            Self::DivisionByZero { span } => Some(*span),
            Self::TypeMismatch { span, .. } => Some(*span),
            Self::InvalidFunctionArgument { span, .. } => Some(*span),
            _ => None,
        }
    }

    /// The human-readable diagnostic message of this error.
    pub fn message(&self) -> (r: String)
        ensures
            r@ == spec_message(self@),
    {
        match self {
            Self::UnexpectedCharacter { ch, line, column } => {
                let mut s = String::from_str("ERRATUM LEXICUM: Character '");
                push_char(&mut s, *ch);
                s.append("' ignotum est in linea ");
                s.append(decimal_string_usize(*line).as_str());
                s.append(", columna ");
                s.append(decimal_string_usize(*column).as_str());
                s.append("!");
                proof {
                    assert(s@ =~= spec_message(self@));
                }
                s
            },
            Self::InvalidRomanNumeral { numeral, .. } => {
                let mut s = String::from_str("ERRATUM LEXICUM: Numerus Romanus '");
                s.append(numeral.as_str());
                s.append("' invalidus est!");
                proof {
                    assert(s@ =~= spec_message(self@));
                }
                s
            },
            Self::UnterminatedString { line } => {
                let mut s = String::from_str("ERRATUM LEXICUM: String non terminata in linea ");
                s.append(decimal_string_usize(*line).as_str());
                s.append("!");
                proof {
                    assert(s@ =~= spec_message(self@));
                }
                s
            },
            Self::NumberOutOfRange { value, .. } => {
                let mut s = String::from_str("ERRATUM LEXICUM: Numerus ");
                s.append(decimal_string_i64(*value).as_str());
                s.append(" extra fines est! (I-MMMCMXCIX solum)");
                proof {
                    assert(s@ =~= spec_message(self@));
                }
                s
            },
            Self::UnexpectedToken { expected, found, .. } => {
                let mut s = String::from_str("ERRATUM SYNTAXIS: Expectabatur '");
                s.append(expected.as_str());
                s.append("', sed inveni '");
                s.append(found.as_str());
                s.append("'!");
                proof {
                    assert(s@ =~= spec_message(self@));
                }
                s
            },
            Self::ExpectedExpression { after, .. } => {
                let mut s = String::from_str("ERRATUM SYNTAXIS: Expressio expectata post '");
                s.append(after.as_str());
                s.append("'!");
                proof {
                    assert(s@ =~= spec_message(self@));
                }
                s
            },
            Self::UnclosedParenthesis { .. } => {
                String::from_str("ERRATUM SYNTAXIS: Parenthesis clausa ')' desideratur!")
            },
            Self::UnexpectedEndOfInput => {
                String::from_str("ERRATUM SYNTAXIS: Finis inexpectatus programmatis!")
            },
            Self::ExpectedIdentifier { .. } => {
                String::from_str("ERRATUM SYNTAXIS: Identificator expectatus!")
            },
            Self::UndefinedVariable { name } => {
                let mut s = String::from_str("ERRATUM: Variable '");
                s.append(name.as_str());
                s.append("' non declarata est!");
                proof {
                    assert(s@ =~= spec_message(self@));
                }
                s
            },
            Self::VariableAlreadyDeclared { name } => {
                let mut s = String::from_str("ERRATUM: Variable '");
                s.append(name.as_str());
                s.append("' iam declarata est!");
                proof {
                    assert(s@ =~= spec_message(self@));
                }
                s
            },
            Self::DivisionByZero { .. } => {
                String::from_str(
                    "ERRATUM: Divisio per nihilum prohibita est! (Etiam Romani hoc sciebant)",
                )
            },
            Self::NegativeRomanConversion { value } => {
                let mut s = String::from_str("ERRATUM: Numerus negativus ");
                s.append(decimal_string_i32(*value).as_str());
                s.append(" in Romanis exprimi non potest!");
                proof {
                    assert(s@ =~= spec_message(self@));
                }
                s
            },
            Self::RomanOverflow { value } => {
                let mut s = String::from_str("ERRATUM: Numerus ");
                s.append(decimal_string_i32(*value).as_str());
                s.append(" nimis magnus pro Romanis (maximum MMMCMXCIX)!");
                proof {
                    assert(s@ =~= spec_message(self@));
                }
                s
            },
            Self::IntegerOverflow { value } => {
                let mut s = String::from_str("ERRATUM: Numerus ");
                s.append(decimal_string_i64(*value).as_str());
                s.append(" nimis magnus vel parvus!");
                proof {
                    assert(s@ =~= spec_message(self@));
                }
                s
            },
            Self::TypeMismatch { operation, expected, .. } => {
                let mut s = String::from_str("ERRATUM: Operatio '");
                s.append(operation.as_str());
                s.append("' requirit ");
                s.append(expected.as_str());
                s.append("!");
                proof {
                    assert(s@ =~= spec_message(self@));
                }
                s
            },
            Self::InvalidFunctionArgument { name, .. } => {
                let mut s = String::from_str("ERRATUM: Functio '");
                s.append(name.as_str());
                s.append("' argumentum invalidum accepit!");
                proof {
                    assert(s@ =~= spec_message(self@));
                }
                s
            },
        }
    }
}

/// The index of the first newline in `s` at or after `i`, or `s.len()` when
/// there is none.
pub open spec fn spec_find_newline(s: Seq<char>, i: int) -> int
    decreases s.len() - i,
{
    if i < 0 || i >= s.len() {
        s.len() as int
    } else if s[i] == '\n' {
        i
    } else {
        spec_find_newline(s, i + 1)
    }
}

/// The `k`-th newline-separated line of `s`, if `s` has that many lines.
/// A source with no characters has no lines; a trailing newline does not add
/// an empty final line.
pub open spec fn spec_nth_line(s: Seq<char>, k: int) -> Option<Seq<char>>
    decreases k,
{
    if s.len() == 0 {
        None
    } else if k <= 0 {
        Some(s.take(spec_find_newline(s, 0)))
    } else if spec_find_newline(s, 0) == s.len() {
        None
    } else {
        spec_nth_line(s.skip(spec_find_newline(s, 0) + 1), k - 1)
    }
}

proof fn lemma_find_newline_bounds(s: Seq<char>, i: int)
    requires
        0 <= i <= s.len(),
    ensures
        i <= spec_find_newline(s, i) <= s.len(),
        spec_find_newline(s, i) < s.len() ==> s[spec_find_newline(s, i)] == '\n',
        forall|j: int| i <= j < spec_find_newline(s, i) ==> s[j] != '\n',
    decreases s.len() - i,
{
    if i < s.len() && s[i] != '\n' {
        lemma_find_newline_bounds(s, i + 1);
    }
}

fn find_newline(s: &str, i: usize) -> (j: usize)
    requires
        i <= s@.len(),
    ensures
        j == spec_find_newline(s@, i as int),
        i <= j <= s@.len(),
{
    proof {
        lemma_find_newline_bounds(s@, i as int);
    }
    let n = s.unicode_len();
    let mut j = i;
    while j < n
        invariant
            n == s@.len(),
            i <= j <= n,
            spec_find_newline(s@, i as int) == spec_find_newline(s@, j as int),
        decreases n - j,
    {
        if s.get_char(j) == '\n' {
            return j;
        }
        j = j + 1;
    }
    j
}

/// The `k`-th line of a source text, as `str::lines` would count them for
/// newline-separated text.
fn nth_line(s: &str, k: usize) -> (r: Option<String>)
    ensures
        r is Some <==> spec_nth_line(s@, k as int) is Some,
        r matches Some(line) ==> spec_nth_line(s@, k as int) == Some(line@),
    decreases k,
{
    let n = s.unicode_len();
    if n == 0 {
        return None;
    }
    let j = find_newline(s, 0);
    if k == 0 {
        proof {
            lemma_find_newline_bounds(s@, 0);
        }
        let line = s.substring_char(0, j);
        proof {
            assert(line@ =~= s@.take(j as int));
        }
        Some(String::from_str(line))
    } else if j == n {
        None
    } else {
        proof {
            lemma_find_newline_bounds(s@, 0);
        }
        let rest = s.substring_char(j + 1, n);
        proof {
            assert(rest@ =~= s@.skip(j as int + 1));
        }
        nth_line(rest, k - 1)
    }
}

/// The line number rendered for the context gutter, right-aligned to a width
/// of three characters.
pub open spec fn spec_gutter(line: int) -> Seq<char> {
    let d = spec_decimal(line);
    if d.len() < 3 {
        spec_repeat(' ', 3 - d.len()) + d
    } else {
        d
    }
}

/// What `format_error_with_context` produces: the error message, then, when
/// the error carries a span and the source has the span's line, a context
/// block quoting that line with a caret marker under the offending columns.
pub open spec fn spec_format_error(src: Seq<char>, e: SpecNumerusError) -> Seq<char> {
    let msg = spec_message(e) + seq!['\n'];
    match spec_err_span(e) {
        None => msg,
        Some(span) => {
            let k = if span.line > 0 {
                span.line - 1
            } else {
                0
            };
            match spec_nth_line(src, k as int) {
                None => msg,
                Some(line) => {
                    let carets = if span.end > span.start {
                        span.end - span.start
                    } else {
                        1
                    };
                    let pad = if span.column > 0 {
                        span.column - 1
                    } else {
                        0
                    };
                    msg + "  --> linea "@ + spec_decimal(span.line as int) + seq![':']
                        + spec_decimal(span.column as int) + "\n   |\n "@ + spec_gutter(
                        span.line as int,
                    ) + " | "@ + line + "\n   | "@ + spec_repeat(' ', pad as int) + spec_repeat(
                        '^',
                        carets as int,
                    ) + seq!['\n']
                },
            }
        },
    }
}

/// Format an error with source context for pretty printing.
#[verifier::rlimit(60)]
pub fn format_error_with_context(source: &str, error: &NumerusError) -> (r: String)
    ensures
        r@ == spec_format_error(source@, error@),
{
    let mut out = error.message();
    push_char(&mut out, '\n');
    match error.span() {
        None => out,
        Some(span) => {
            let k = if span.line > 0 {
                span.line - 1
            } else {
                0
            };
            match nth_line(source, k) {
                None => out,
                Some(line) => {
                    let carets: usize = if span.end > span.start {
                        span.end - span.start
                    } else {
                        1
                    };
                    let pad: usize = if span.column > 0 {
                        span.column - 1
                    } else {
                        0
                    };
                    out.append("  --> linea ");
                    out.append(decimal_string_usize(span.line).as_str());
                    push_char(&mut out, ':');
                    out.append(decimal_string_usize(span.column).as_str());
                    out.append("\n   |\n ");
                    let digits = decimal_string_usize(span.line);
                    if digits.as_str().unicode_len() < 3 {
                        let fill = repeat_char(' ', 3 - digits.as_str().unicode_len());
                        out.append(string_of_chars(&fill).as_str());
                    }
                    out.append(digits.as_str());
                    out.append(" | ");
                    out.append(line.as_str());
                    out.append("\n   | ");
                    out.append(string_of_chars(&repeat_char(' ', pad)).as_str());
                    out.append(string_of_chars(&repeat_char('^', carets)).as_str());
                    push_char(&mut out, '\n');
                    proof {
                        assert(out@ =~= spec_format_error(source@, error@));
                    }
                    out
                },
            }
        },
    }
}

} // verus!
