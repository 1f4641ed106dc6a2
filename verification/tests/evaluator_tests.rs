use numerus::environment::Value;
use numerus::error::NumerusError;
use numerus::evaluator::Interpreter;
use numerus::lexer::Lexer;
use numerus::parser::Parser;

fn run(input: &str) -> Vec<String> {
    let mut lexer = Lexer::new(input);
    let tokens = lexer.tokenize().unwrap();
    let mut parser = Parser::new(tokens);
    let program = parser.parse().unwrap();
    let mut interpreter = Interpreter::new();
    interpreter.run(&program).unwrap()
}

fn run_and_keep(input: &str) -> (Vec<String>, Interpreter) {
    let mut lexer = Lexer::new(input);
    let tokens = lexer.tokenize().unwrap();
    let mut parser = Parser::new(tokens);
    let program = parser.parse().unwrap();
    let mut interpreter = Interpreter::new();
    let output = interpreter.run(&program).unwrap();
    (output, interpreter)
}

fn var(interpreter: &Interpreter, name: &str) -> Value {
    interpreter.environment().get(name).unwrap()
}

#[test]
fn evaluator_test_declaration() {
    let (_, interp) = run_and_keep("DECLARA X EST 42");
    assert_eq!(var(&interp, "X"), Value::Number(42));
}

#[test]
fn test_roman_declaration() {
    let (_, interp) = run_and_keep("DECLARA X EST XIV");
    assert_eq!(var(&interp, "X"), Value::Number(14));
}

#[test]
fn test_string_declaration() {
    let (_, interp) = run_and_keep("DECLARA msg EST \"Hello World\"");
    assert_eq!(var(&interp, "msg"), Value::String("Hello World".to_string()));
}

#[test]
fn test_lowercase_variable() {
    let (_, interp) = run_and_keep("DECLARA myVar EST 42");
    assert_eq!(var(&interp, "myVar"), Value::Number(42));
}

#[test]
fn test_assignment() {
    let (_, interp) = run_and_keep("DECLARA X EST 10\nX EST 42");
    assert_eq!(var(&interp, "X"), Value::Number(42));
}

#[test]
fn test_addition() {
    let (_, interp) = run_and_keep("DECLARA A EST 10\nDECLARA B EST 5\nDECLARA C EST A ADDIUS B");
    assert_eq!(var(&interp, "C"), Value::Number(15));
}

#[test]
fn test_string_concat() {
    let (_, interp) = run_and_keep("DECLARA msg EST \"Hello \" ADDIUS \"World\"");
    assert_eq!(var(&interp, "msg"), Value::String("Hello World".to_string()));
}

#[test]
fn test_string_number_concat() {
    let (_, interp) = run_and_keep("DECLARA msg EST \"Value: \" ADDIUS 42");
    assert_eq!(var(&interp, "msg"), Value::String("Value: XLII".to_string()));
}

#[test]
fn test_subtraction() {
    let (_, interp) = run_and_keep("DECLARA A EST 10\nDECLARA B EST 3\nDECLARA C EST A SUBTRAHE B");
    assert_eq!(var(&interp, "C"), Value::Number(7));
}

#[test]
fn test_multiplication() {
    let (_, interp) = run_and_keep("DECLARA A EST 6\nDECLARA B EST 7\nDECLARA C EST A MULTIPLICA B");
    assert_eq!(var(&interp, "C"), Value::Number(42));
}

#[test]
fn test_division() {
    let (_, interp) = run_and_keep("DECLARA A EST 42\nDECLARA B EST 6\nDECLARA C EST A DIVIDE B");
    assert_eq!(var(&interp, "C"), Value::Number(7));
}

#[test]
fn test_precedence() {
    // 2 + 3 * 4 = 2 + 12 = 14
    let (_, interp) = run_and_keep("DECLARA X EST 2 ADDIUS 3 MULTIPLICA 4");
    assert_eq!(var(&interp, "X"), Value::Number(14));
}

#[test]
fn test_parentheses() {
    // (2 + 3) * 4 = 5 * 4 = 20
    let (_, interp) = run_and_keep("DECLARA X EST (2 ADDIUS 3) MULTIPLICA 4");
    assert_eq!(var(&interp, "X"), Value::Number(20));
}

#[test]
fn test_print_number_roman() {
    let output = run("DECLARA X EST 42\nSCRIBE(X)");
    assert_eq!(output[0], "XLII");
}

#[test]
fn test_print_number_arabic() {
    let output = run("DECLARA X EST 42\nSCRIBE(ARABIZA(X))");
    assert_eq!(output[0], "42");
}

#[test]
fn test_arabiza() {
    let (_, interp) = run_and_keep("DECLARA X EST ARABIZA(42)");
    assert_eq!(var(&interp, "X"), Value::String("42".to_string()));
}

#[test]
fn test_print_string() {
    let output = run("SCRIBE(\"Hello World\")");
    assert_eq!(output[0], "Hello World");
}

#[test]
fn test_print_concat() {
    let output = run("DECLARA X EST 42\nSCRIBE(\"Value: \" ADDIUS X)");
    assert_eq!(output[0], "Value: XLII");
}

#[test]
fn test_romaniza() {
    let (_, interp) = run_and_keep("DECLARA X EST ROMANIZA(42)");
    assert_eq!(var(&interp, "X"), Value::String("XLII".to_string()));
}

#[test]
fn test_complex_expression() {
    // Use multi-char Roman numerals (single chars are identifiers)
    let (_, interp) = run_and_keep(
        "\nDECLARA A EST XV\nDECLARA B EST 10\nDECLARA C EST A ADDIUS B\nDECLARA D EST C DIVIDE 5\n",
    );
    assert_eq!(var(&interp, "A"), Value::Number(15));
    assert_eq!(var(&interp, "B"), Value::Number(10));
    assert_eq!(var(&interp, "C"), Value::Number(25));
    assert_eq!(var(&interp, "D"), Value::Number(5));
}

#[test]
fn test_division_by_zero() {
    let mut lexer = Lexer::new("DECLARA X EST 10 DIVIDE 0");
    let tokens = lexer.tokenize().unwrap();
    let mut parser = Parser::new(tokens);
    let program = parser.parse().unwrap();
    let mut interpreter = Interpreter::new();
    let result = interpreter.run(&program);
    assert!(matches!(result, Err(NumerusError::DivisionByZero { .. })));
}

#[test]
fn test_undefined_variable() {
    let mut lexer = Lexer::new("DECLARA X EST Y");
    let tokens = lexer.tokenize().unwrap();
    let mut parser = Parser::new(tokens);
    let program = parser.parse().unwrap();
    let mut interpreter = Interpreter::new();
    let result = interpreter.run(&program);
    assert!(matches!(result, Err(NumerusError::UndefinedVariable { .. })));
}
