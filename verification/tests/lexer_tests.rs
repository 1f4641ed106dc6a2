use numerus::lexer::Lexer;
use numerus::token::TokenKind;

fn tokenize(input: &str) -> Vec<TokenKind> {
    let mut lexer = Lexer::new(input);
    lexer.tokenize().unwrap().into_iter().map(|t| t.kind).collect()
}

#[test]
fn test_keywords() {
    let tokens = tokenize("DECLARA EST ADDIUS SUBTRAHE MULTIPLICA DIVIDE SCRIBE ARABIZA AVTEM");
    assert_eq!(
        tokens,
        vec![
            TokenKind::Declara,
            TokenKind::Est,
            TokenKind::Addius,
            TokenKind::Subtrahe,
            TokenKind::Multiplica,
            TokenKind::Divide,
            TokenKind::Scribe,
            TokenKind::Arabiza,
            TokenKind::Avtem,
            TokenKind::Eof,
        ]
    );
}

#[test]
fn test_roman_literals() {
    // Single chars are identifiers, multi-char Roman numerals are literals
    let tokens = tokenize("II IV IX XIV XLII MCMXCIX");
    assert_eq!(
        tokens,
        vec![
            TokenKind::RomanLiteral(2),
            TokenKind::RomanLiteral(4),
            TokenKind::RomanLiteral(9),
            TokenKind::RomanLiteral(14),
            TokenKind::RomanLiteral(42),
            TokenKind::RomanLiteral(1999),
            TokenKind::Eof,
        ]
    );
}

#[test]
fn test_single_roman_chars_are_identifiers() {
    // Single Roman numeral characters should be identifiers (for variable names)
    let tokens = tokenize("I V X L C D M");
    assert_eq!(
        tokens,
        vec![
            TokenKind::Identifier("I".to_string()),
            TokenKind::Identifier("V".to_string()),
            TokenKind::Identifier("X".to_string()),
            TokenKind::Identifier("L".to_string()),
            TokenKind::Identifier("C".to_string()),
            TokenKind::Identifier("D".to_string()),
            TokenKind::Identifier("M".to_string()),
            TokenKind::Eof,
        ]
    );
}

#[test]
fn test_arabic_literals() {
    let tokens = tokenize("0 1 42 3999");
    assert_eq!(
        tokens,
        vec![
            TokenKind::ArabicLiteral(0),
            TokenKind::ArabicLiteral(1),
            TokenKind::ArabicLiteral(42),
            TokenKind::ArabicLiteral(3999),
            TokenKind::Eof,
        ]
    );
}

#[test]
fn test_identifiers() {
    let tokens = tokenize("VARIABILIS NUMERUS RES");
    assert_eq!(
        tokens,
        vec![
            TokenKind::Identifier("VARIABILIS".to_string()),
            TokenKind::Identifier("NUMERUS".to_string()),
            TokenKind::Identifier("RES".to_string()),
            TokenKind::Eof,
        ]
    );
}

#[test]
fn test_string_literal() {
    let tokens = tokenize("\"SALVE MUNDE\"");
    assert_eq!(
        tokens,
        vec![TokenKind::StringLiteral("SALVE MUNDE".to_string()), TokenKind::Eof,]
    );
}

#[test]
fn test_string_with_placeholder() {
    let tokens = tokenize("\"VALOR: {X}\"");
    assert_eq!(
        tokens,
        vec![TokenKind::StringLiteral("VALOR: {X}".to_string()), TokenKind::Eof,]
    );
}

#[test]
fn test_punctuation() {
    let tokens = tokenize("( ) { } ,");
    assert_eq!(
        tokens,
        vec![
            TokenKind::LeftParen,
            TokenKind::RightParen,
            TokenKind::LeftBrace,
            TokenKind::RightBrace,
            TokenKind::Comma,
            TokenKind::Eof,
        ]
    );
}

#[test]
fn lexer_test_declaration() {
    let tokens = tokenize("DECLARA X EST 42");
    assert_eq!(
        tokens,
        vec![
            TokenKind::Declara,
            TokenKind::Identifier("X".to_string()),
            TokenKind::Est,
            TokenKind::ArabicLiteral(42),
            TokenKind::Eof,
        ]
    );
}

#[test]
fn test_expression() {
    let tokens = tokenize("A ADDIUS B MULTIPLICA C");
    assert_eq!(
        tokens,
        vec![
            TokenKind::Identifier("A".to_string()),
            TokenKind::Addius,
            TokenKind::Identifier("B".to_string()),
            TokenKind::Multiplica,
            TokenKind::Identifier("C".to_string()),
            TokenKind::Eof,
        ]
    );
}

#[test]
fn test_number_out_of_range() {
    let mut lexer = Lexer::new("4000");
    let result = lexer.tokenize();
    assert!(result.is_err());
}

#[test]
fn test_unterminated_string() {
    let mut lexer = Lexer::new("\"hello");
    let result = lexer.tokenize();
    assert!(result.is_err());
}
