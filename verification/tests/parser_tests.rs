use numerus::ast::{BinaryOperator, BuiltinFunction, Expression, NumberForm, Program, Statement};
use numerus::lexer::Lexer;
use numerus::parser::Parser;

fn parse(input: &str) -> Program {
    let mut lexer = Lexer::new(input);
    let tokens = lexer.tokenize().unwrap();
    let mut parser = Parser::new(tokens);
    parser.parse().unwrap()
}

#[test]
fn test_parse_declaration() {
    let program = parse("DECLARA X EST 42");
    assert_eq!(program.statements.len(), 1);
    match &program.statements[0] {
        Statement::Declaration { name, value, .. } => {
            assert_eq!(name, "X");
            match value {
                Expression::NumberLiteral { value, original_form, .. } => {
                    assert_eq!(*value, 42);
                    assert_eq!(*original_form, NumberForm::Arabic);
                }
                _ => panic!("Expected literal"),
            }
        }
        _ => panic!("Expected declaration"),
    }
}

#[test]
fn test_parse_roman_literal() {
    let program = parse("DECLARA X EST XIV");
    match &program.statements[0] {
        Statement::Declaration { value, .. } => match value {
            Expression::NumberLiteral { value, original_form, .. } => {
                assert_eq!(*value, 14);
                assert_eq!(*original_form, NumberForm::Roman);
            }
            _ => panic!("Expected literal"),
        },
        _ => panic!("Expected declaration"),
    }
}

#[test]
fn test_parse_string_literal() {
    let program = parse("DECLARA msg EST \"Hello World\"");
    match &program.statements[0] {
        Statement::Declaration { name, value, .. } => {
            assert_eq!(name, "msg");
            match value {
                Expression::StringLiteral { value, .. } => {
                    assert_eq!(value, "Hello World");
                }
                _ => panic!("Expected string literal"),
            }
        }
        _ => panic!("Expected declaration"),
    }
}

#[test]
fn test_parse_lowercase_identifier() {
    let program = parse("DECLARA myVar EST 42");
    match &program.statements[0] {
        Statement::Declaration { name, .. } => {
            assert_eq!(name, "myVar");
        }
        _ => panic!("Expected declaration"),
    }
}

#[test]
fn test_parse_assignment() {
    let program = parse("X EST 10");
    match &program.statements[0] {
        Statement::Assignment { name, .. } => {
            assert_eq!(name, "X");
        }
        _ => panic!("Expected assignment"),
    }
}

#[test]
fn test_parse_binary_expression() {
    let program = parse("X EST A ADDIUS B");
    match &program.statements[0] {
        Statement::Assignment { value, .. } => match value {
            Expression::BinaryOp { operator, .. } => {
                assert_eq!(*operator, BinaryOperator::Add);
            }
            _ => panic!("Expected binary op"),
        },
        _ => panic!("Expected assignment"),
    }
}

#[test]
fn test_parse_precedence() {
    // A ADDIUS B MULTIPLICA C should parse as A + (B * C)
    let program = parse("X EST A ADDIUS B MULTIPLICA C");
    match &program.statements[0] {
        Statement::Assignment { value, .. } => match value {
            Expression::BinaryOp { operator, left, right, .. } => {
                assert_eq!(*operator, BinaryOperator::Add);
                assert!(matches!(**left, Expression::Variable { .. }));
                match &**right {
                    Expression::BinaryOp { operator, .. } => {
                        assert_eq!(*operator, BinaryOperator::Multiply);
                    }
                    _ => panic!("Right should be multiply"),
                }
            }
            _ => panic!("Expected binary op"),
        },
        _ => panic!("Expected assignment"),
    }
}

#[test]
fn test_parse_parentheses() {
    // (A ADDIUS B) MULTIPLICA C
    let program = parse("X EST (A ADDIUS B) MULTIPLICA C");
    match &program.statements[0] {
        Statement::Assignment { value, .. } => match value {
            Expression::BinaryOp { operator, left, .. } => {
                assert_eq!(*operator, BinaryOperator::Multiply);
                match &**left {
                    Expression::Grouped { inner, .. } => match &**inner {
                        Expression::BinaryOp { operator, .. } => {
                            assert_eq!(*operator, BinaryOperator::Add);
                        }
                        _ => panic!("Inner should be add"),
                    },
                    _ => panic!("Left should be grouped"),
                }
            }
            _ => panic!("Expected multiply"),
        },
        _ => panic!("Expected assignment"),
    }
}

#[test]
fn test_parse_print() {
    let program = parse("SCRIBE(\"Hello World\")");
    match &program.statements[0] {
        Statement::Print { value, .. } => match value {
            Expression::StringLiteral { value, .. } => {
                assert_eq!(value, "Hello World");
            }
            _ => panic!("Expected string literal"),
        },
        _ => panic!("Expected print"),
    }
}

#[test]
fn test_parse_arabiza() {
    let program = parse("SCRIBE(ARABIZA(X))");
    match &program.statements[0] {
        Statement::Print { value, .. } => match value {
            Expression::FunctionCall { function, .. } => {
                assert_eq!(*function, BuiltinFunction::Arabiza);
            }
            _ => panic!("Expected function call"),
        },
        _ => panic!("Expected print"),
    }
}

#[test]
fn test_parse_string_concat() {
    let program = parse("DECLARA msg EST \"Hello \" ADDIUS \"World\"");
    match &program.statements[0] {
        Statement::Declaration { value, .. } => match value {
            Expression::BinaryOp { operator, .. } => {
                assert_eq!(*operator, BinaryOperator::Add);
            }
            _ => panic!("Expected binary op"),
        },
        _ => panic!("Expected declaration"),
    }
}

#[test]
fn test_parse_avtem() {
    let program = parse("AVTEM");
    assert!(matches!(program.statements[0], Statement::Avtem { .. }));
}
