use numerus::ast::{BinaryOperator, Expression, NumberForm, Statement};
use numerus::environment::{Environment, Value};
use numerus::error::{format_error_with_context, NumerusError};
use numerus::evaluator::Interpreter;
use numerus::lex_and_parse;
use numerus::lexer::Lexer;
use numerus::parser::Parser;
use numerus::roman::{from_roman, RomanError};
use numerus::span::Span;
use numerus::token::{Token, TokenKind};

fn run(input: &str) -> Result<Vec<String>, NumerusError> {
    let program = lex_and_parse(input)?;
    let mut interpreter = Interpreter::new();
    interpreter.run(&program)
}

#[test]
fn test_canonical_rejection_more() {
    // Strings that pass local repetition/subtractive checks but are not a
    // canonical encoding, and subtractive pairs outside the six allowed.
    assert!(matches!(from_roman("VX"), Err(RomanError::InvalidSubtractive(_))));
    assert!(matches!(from_roman("IIII"), Err(RomanError::TooManyRepetitions('I'))));
    assert!(matches!(from_roman("VV"), Err(RomanError::InvalidRepetition('V'))));
    assert!(matches!(from_roman(""), Err(RomanError::Empty)));
    assert!(matches!(from_roman("IC"), Err(RomanError::InvalidSubtractive(_))));
    assert!(matches!(from_roman("XM"), Err(RomanError::InvalidSubtractive(_))));
    assert!(matches!(from_roman("IXIX"), Err(RomanError::NonCanonical(_, _))));
}

#[test]
fn test_from_roman_total_out_of_range_not_canonical() {
    // Locally valid repetitions whose total exceeds 3999 are not anyone's
    // canonical encoding, so the final re-encoding check rejects them.
    assert!(matches!(from_roman("MMMCMM"), Err(RomanError::NonCanonical(_, _))));
}

#[test]
fn test_gigantic_digit_run_is_range_error() {
    let mut lexer = Lexer::new("99999999999999999999999");
    match lexer.tokenize() {
        Err(NumerusError::NumberOutOfRange { value, .. }) => assert_eq!(value, i64::MAX),
        other => panic!("expected range error, got {:?}", other),
    }
}

#[test]
fn test_from_roman_case_insensitive() {
    assert_eq!(from_roman("xiv").unwrap(), 14);
    assert_eq!(from_roman("mcmxcix").unwrap(), 1999);
    assert_eq!(from_roman("XlIi").unwrap(), 42);
}

#[test]
fn test_redeclaration_keeps_original_value() {
    let mut env = Environment::new();
    env.declare("X".to_string(), Value::Number(42)).unwrap();
    let result = env.declare("X".to_string(), Value::Number(100));
    assert!(matches!(
        result,
        Err(NumerusError::VariableAlreadyDeclared { .. })
    ));
    assert_eq!(env.get("X").unwrap(), Value::Number(42));
}

#[test]
fn test_huge_literal_rejected_at_lex() {
    // Literals above 3999 never reach arithmetic: the lexer rejects them
    // with a range error first.
    let result = run("DECLARA X EST 2000000000 ADDIUS 2000000000");
    match result {
        Err(NumerusError::NumberOutOfRange { value, .. }) => assert_eq!(value, 2000000000),
        other => panic!("expected range error, got {:?}", other),
    }
}

#[test]
fn test_integer_overflow_multiplication() {
    let result = run("DECLARA X EST 3999 MULTIPLICA 3999 MULTIPLICA 3999");
    match result {
        Err(NumerusError::IntegerOverflow { value }) => {
            assert_eq!(value, 3999i64 * 3999 * 3999);
        }
        other => panic!("expected integer overflow, got {:?}", other),
    }
}

#[test]
fn test_end_to_end_summa() {
    let output = run(
        "DECLARA A EST XV\nDECLARA B EST 10\nDECLARA C EST A ADDIUS B\nSCRIBE(\"Summa: \" ADDIUS C)",
    )
    .unwrap();
    assert_eq!(output, vec!["Summa: XXV".to_string()]);
}

#[test]
fn test_end_to_end_arabiza_and_roman_output() {
    let output = run("DECLARA X EST 42\nSCRIBE(ARABIZA(X))\nSCRIBE(X)").unwrap();
    assert_eq!(output, vec!["42".to_string(), "XLII".to_string()]);
}

#[test]
fn test_boundary_4000_fails_at_lex() {
    let mut lexer = Lexer::new("DECLARA X EST 4000");
    match lexer.tokenize() {
        Err(NumerusError::NumberOutOfRange { value, .. }) => assert_eq!(value, 4000),
        other => panic!("expected range error, got {:?}", other),
    }
}

#[test]
fn test_boundary_zero_fails_at_output() {
    // 0 lexes fine, but printing it cannot be expressed in Roman numerals.
    let result = run("DECLARA X EST 0\nSCRIBE(X)");
    assert!(matches!(
        result,
        Err(NumerusError::NegativeRomanConversion { value: 0 })
    ));
}

#[test]
fn test_unexpected_character_error() {
    let mut lexer = Lexer::new("DECLARA X @");
    match lexer.tokenize() {
        Err(NumerusError::UnexpectedCharacter { ch, line, column }) => {
            assert_eq!(ch, '@');
            assert_eq!(line, 1);
            assert_eq!(column, 11);
        }
        other => panic!("expected unexpected-character error, got {:?}", other),
    }
}

#[test]
fn test_expected_identifier_error() {
    let result = run("DECLARA 42 EST 1");
    assert!(matches!(result, Err(NumerusError::ExpectedIdentifier { .. })));
}

#[test]
fn test_missing_est_error() {
    let result = run("DECLARA X 42");
    match result {
        Err(NumerusError::UnexpectedToken { expected, found, .. }) => {
            assert_eq!(expected, "EST");
            assert_eq!(found, "numerus Arabicus");
        }
        other => panic!("expected unexpected-token error, got {:?}", other),
    }
}

#[test]
fn test_expected_expression_error() {
    let result = run("DECLARA X EST");
    match result {
        Err(NumerusError::ExpectedExpression { after, .. }) => {
            assert_eq!(after, "EST");
        }
        other => panic!("expected expected-expression error, got {:?}", other),
    }
}

#[test]
fn test_type_mismatch_error() {
    let result = run("DECLARA X EST \"a\" SUBTRAHE 1");
    match result {
        Err(NumerusError::TypeMismatch { operation, expected, .. }) => {
            assert_eq!(operation, "SUBTRAHE");
            assert_eq!(expected, "numbers");
        }
        other => panic!("expected type-mismatch error, got {:?}", other),
    }
}

#[test]
fn test_romaniza_out_of_range() {
    let result = run("DECLARA X EST 2000 ADDIUS 2001\nSCRIBE(ROMANIZA(X))");
    assert!(matches!(
        result,
        Err(NumerusError::RomanOverflow { value: 4001 })
    ));
}

#[test]
fn test_exprime_is_identity() {
    let output = run("DECLARA X EST EXPRIME(42)\nSCRIBE(X)").unwrap();
    assert_eq!(output, vec!["XLII".to_string()]);
}

#[test]
fn test_comment_and_avtem_have_no_effect() {
    let output = run("NOTA: nihil agit\nAVTEM\nSCRIBE(\"salve\")").unwrap();
    assert_eq!(output, vec!["salve".to_string()]);
}

#[test]
fn test_fail_fast_keeps_earlier_effects() {
    let mut interpreter = Interpreter::new();
    let program = lex_and_parse("DECLARA X EST 7\nDECLARA X EST 8\nDECLARA Y EST 9").unwrap();
    let result = interpreter.run(&program);
    assert!(matches!(
        result,
        Err(NumerusError::VariableAlreadyDeclared { .. })
    ));
    // The first declaration survives; the one after the failure never ran.
    assert_eq!(
        interpreter.environment().get("X").unwrap(),
        Value::Number(7)
    );
    assert!(interpreter.environment().get("Y").is_err());
}

#[test]
fn test_execute_single_statement() {
    let mut interpreter = Interpreter::new();
    let program = lex_and_parse("SCRIBE(\"unum\")").unwrap();
    let line = interpreter.execute(&program.statements[0]).unwrap();
    assert_eq!(line, Some("unum".to_string()));
    let program2 = lex_and_parse("DECLARA X EST 5").unwrap();
    let line2 = interpreter.execute(&program2.statements[0]).unwrap();
    assert_eq!(line2, None);
}

#[test]
fn test_session_state_persists_across_executes() {
    let mut interpreter = Interpreter::new();
    let p1 = lex_and_parse("DECLARA X EST 10").unwrap();
    interpreter.execute(&p1.statements[0]).unwrap();
    let p2 = lex_and_parse("X EST X ADDIUS 5").unwrap();
    interpreter.execute(&p2.statements[0]).unwrap();
    let p3 = lex_and_parse("SCRIBE(X)").unwrap();
    let line = interpreter.execute(&p3.statements[0]).unwrap();
    assert_eq!(line, Some("XV".to_string()));
}

#[test]
fn test_error_message_texts() {
    let e = NumerusError::UndefinedVariable { name: "X".to_string() };
    assert_eq!(e.message(), "ERRATUM: Variable 'X' non declarata est!");
    let e = NumerusError::VariableAlreadyDeclared { name: "ite".to_string() };
    assert_eq!(e.message(), "ERRATUM: Variable 'ite' iam declarata est!");
    let e = NumerusError::IntegerOverflow { value: -42 };
    assert_eq!(e.message(), "ERRATUM: Numerus -42 nimis magnus vel parvus!");
    let e = NumerusError::UnexpectedCharacter { ch: '@', line: 3, column: 9 };
    assert_eq!(
        e.message(),
        "ERRATUM LEXICUM: Character '@' ignotum est in linea 3, columna 9!"
    );
}

#[test]
fn test_error_span_accessor() {
    let span = Span::new(4, 8, 1, 5);
    let e = NumerusError::DivisionByZero { span };
    assert_eq!(e.span(), Some(span));
    let e = NumerusError::UnexpectedEndOfInput;
    assert_eq!(e.span(), None);
}

#[test]
fn test_format_error_with_context_block() {
    let source = "DECLARA X EST Y";
    let span = Span::new(14, 15, 1, 15);
    let e = NumerusError::DivisionByZero { span };
    let formatted = format_error_with_context(source, &e);
    let expected = format!(
        "{}\n  --> linea 1:15\n   |\n   1 | DECLARA X EST Y\n   | {}^\n",
        e.message(),
        " ".repeat(14)
    );
    assert_eq!(formatted, expected);
}

#[test]
fn test_format_error_without_span() {
    let e = NumerusError::UnexpectedEndOfInput;
    let formatted = format_error_with_context("", &e);
    assert_eq!(formatted, "ERRATUM SYNTAXIS: Finis inexpectatus programmatis!\n");
}

#[test]
fn test_span_merge() {
    let a = Span::new(0, 5, 1, 1);
    let b = Span::new(8, 12, 1, 9);
    let merged = a.merge(&b);
    assert_eq!(merged, Span::new(0, 12, 1, 1));
    let merged_rev = b.merge(&a);
    assert_eq!(merged_rev, Span::new(0, 12, 1, 1));
    let point = Span::point(3, 2, 4);
    assert_eq!(point, Span::new(3, 3, 2, 4));
}

#[test]
fn test_token_helpers() {
    assert!(TokenKind::Addius.is_operator());
    assert!(TokenKind::Divide.is_operator());
    assert!(!TokenKind::Est.is_operator());
    assert!(TokenKind::Subtrahe.is_additive());
    assert!(!TokenKind::Multiplica.is_additive());
    assert!(TokenKind::Divide.is_multiplicative());
    assert!(!TokenKind::Addius.is_multiplicative());
    assert_eq!(TokenKind::Declara.name(), "DECLARA");
    assert_eq!(TokenKind::Identifier("x".to_string()).name(), "identificator");
    let t = Token::new(TokenKind::Est, Span::new(0, 3, 1, 1), "EST".to_string());
    assert_eq!(t.kind, TokenKind::Est);
    assert_eq!(t.lexeme, "EST");
}

#[test]
fn test_operator_symbols() {
    assert_eq!(BinaryOperator::Add.symbol(), "ADDIUS");
    assert_eq!(BinaryOperator::Subtract.symbol(), "SUBTRAHE");
    assert_eq!(BinaryOperator::Multiply.symbol(), "MULTIPLICA");
    assert_eq!(BinaryOperator::Divide.symbol(), "DIVIDE");
}

#[test]
fn test_value_accessors() {
    let n = Value::Number(7);
    let s = Value::String("ave".to_string());
    assert!(n.is_number());
    assert!(!n.is_string());
    assert!(s.is_string());
    assert!(!s.is_number());
    assert_eq!(n.as_number(), Some(7));
    assert_eq!(s.as_number(), None);
    assert_eq!(n.as_string(), None);
    assert_eq!(s.as_string(), Some("ave"));
}

#[test]
fn test_environment_contains() {
    let mut env = Environment::new();
    assert!(!env.contains("X"));
    env.declare("X".to_string(), Value::Number(1)).unwrap();
    assert!(env.contains("X"));
    assert!(!env.contains("Y"));
}

#[test]
fn test_environment_variables_listing() {
    let mut env = Environment::new();
    env.declare("A".to_string(), Value::Number(1)).unwrap();
    env.declare("B".to_string(), Value::Number(2)).unwrap();
    let mut vars = env.variables();
    vars.sort_by(|x, y| x.0.cmp(&y.0));
    assert_eq!(
        vars,
        vec![
            ("A".to_string(), Value::Number(1)),
            ("B".to_string(), Value::Number(2)),
        ]
    );
}

#[test]
fn test_expression_span() {
    let program = lex_and_parse("X EST A ADDIUS B").unwrap();
    match &program.statements[0] {
        Statement::Assignment { value, .. } => {
            let span = value.span();
            assert_eq!(span.start, 6);
            assert_eq!(span.end, 16);
            assert_eq!(span.line, 1);
            assert_eq!(span.column, 7);
        }
        _ => panic!("Expected assignment"),
    }
}

#[test]
fn test_negative_number_concat_falls_back_to_decimal() {
    // A number outside 1..=3999 cannot be rendered in Roman numerals, so
    // concatenation falls back to its decimal digits.
    let output = run("DECLARA X EST 1 SUBTRAHE 5\nSCRIBE(\"valor \" ADDIUS X)").unwrap();
    assert_eq!(output, vec!["valor -4".to_string()]);
}

#[test]
fn test_division_truncates_toward_zero() {
    let output = run(
        "DECLARA A EST 0 SUBTRAHE 7\nDECLARA B EST A DIVIDE 2\nSCRIBE(ARABIZA(B))",
    )
    .unwrap();
    assert_eq!(output, vec!["-3".to_string()]);
}

#[test]
fn test_number_literal_forms_preserved() {
    let program = lex_and_parse("DECLARA A EST XV\nDECLARA B EST 15").unwrap();
    match &program.statements[0] {
        Statement::Declaration { value: Expression::NumberLiteral { original_form, .. }, .. } => {
            assert_eq!(*original_form, NumberForm::Roman);
        }
        _ => panic!("Expected roman literal"),
    }
    match &program.statements[1] {
        Statement::Declaration { value: Expression::NumberLiteral { original_form, .. }, .. } => {
            assert_eq!(*original_form, NumberForm::Arabic);
        }
        _ => panic!("Expected arabic literal"),
    }
}
