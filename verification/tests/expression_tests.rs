use semantic_core::compute::{translate_computation, ArithOp};
use semantic_core::expression::{parse_atom, parse_expr, Div, Expr, ParseError};
use semantic_core::metadata::ParserMetadata;
use semantic_core::token::Token;
use semantic_core::types::Type;

fn tok(word: &str, row: usize, col: usize) -> Token {
    Token { word: word.to_string(), row, col }
}

#[test]
fn five_divided_by_two_parses_and_is_numeric() {
    let mut meta = ParserMetadata::new(vec![tok("5", 1, 1), tok("/", 1, 3), tok("2", 1, 5)]);
    let expr = parse_expr(&mut meta).expect("well-typed division parses");
    assert_eq!(expr.get_type(), Type::Num);
    assert!(matches!(expr, Expr::Div(_)));
}

#[test]
fn five_divided_by_text_is_a_type_mismatch_at_the_operator() {
    let mut meta = ParserMetadata::new(vec![tok("5", 1, 1), tok("/", 1, 3), tok("\"a\"", 1, 5)]);
    match parse_expr(&mut meta) {
        Err(ParseError::TypeMismatch { row, col, message }) => {
            assert_eq!((row, col), (1, 3));
            assert_eq!(message, "Divide operation can only divide numbers");
        }
        other => panic!("expected a type mismatch, got {:?}", other),
    }
}

#[test]
fn text_divided_by_number_is_a_type_mismatch() {
    let mut meta = ParserMetadata::new(vec![tok("\"a\"", 2, 1), tok("/", 2, 5), tok("5", 2, 7)]);
    assert!(matches!(
        parse_expr(&mut meta),
        Err(ParseError::TypeMismatch { row: 2, col: 5, .. })
    ));
}

#[test]
fn division_node_reports_numeric_type_whatever_its_operands() {
    let d = Div {
        left: Box::new(Expr::Text { word: "\"a\"".to_string(), row: 1, col: 1 }),
        right: Box::new(Expr::Text { word: "\"b\"".to_string(), row: 1, col: 5 }),
    };
    assert_eq!(d.get_type(), Type::Num);
}

#[test]
fn div_parse_fills_the_constructed_node() {
    let mut meta = ParserMetadata::new(vec![tok("8", 1, 1), tok("/", 1, 3), tok("4", 1, 5)]);
    let mut d = Div::new();
    d.parse(&mut meta).expect("division parses");
    assert_eq!(d.get_type(), Type::Num);
    assert_eq!(d.translate(), "8 / 4");
}

#[test]
fn div_parse_without_operator_is_rejected() {
    let mut meta = ParserMetadata::new(vec![tok("8", 1, 1), tok("9", 1, 3)]);
    let mut d = Div::new();
    assert!(matches!(
        d.parse(&mut meta),
        Err(ParseError::UnexpectedToken { row: 1, col: 3 })
    ));
}

#[test]
fn nested_division_translates_through_the_compute_step() {
    let mut meta = ParserMetadata::new(vec![
        tok("8", 1, 1),
        tok("/", 1, 3),
        tok("4", 1, 5),
        tok("/", 1, 7),
        tok("2", 1, 9),
    ]);
    let expr = parse_expr(&mut meta).expect("chained division parses");
    assert_eq!(expr.translate(), "8 / 4 / 2");
}

#[test]
fn literal_translates_to_its_word() {
    let mut meta = ParserMetadata::new(vec![tok("42", 1, 1)]);
    let expr = parse_expr(&mut meta).expect("a literal parses");
    assert_eq!(expr.get_type(), Type::Num);
    assert_eq!(expr.translate(), "42");
}

#[test]
fn text_literal_reports_text_type() {
    let mut meta = ParserMetadata::new(vec![tok("\"hi\"", 1, 1)]);
    let expr = parse_expr(&mut meta).expect("a text literal parses");
    assert_eq!(expr.get_type(), Type::Text);
    assert_eq!(expr.translate(), "\"hi\"");
}

#[test]
fn empty_stream_is_unexpected_end() {
    let mut meta = ParserMetadata::new(vec![]);
    assert!(matches!(parse_expr(&mut meta), Err(ParseError::UnexpectedEnd)));
}

#[test]
fn dangling_operator_is_unexpected_end() {
    let mut meta = ParserMetadata::new(vec![tok("5", 1, 1), tok("/", 1, 3)]);
    assert!(matches!(parse_expr(&mut meta), Err(ParseError::UnexpectedEnd)));
}

#[test]
fn stray_operator_is_an_unexpected_token() {
    let mut meta = ParserMetadata::new(vec![tok("+", 3, 9)]);
    assert!(matches!(
        parse_atom(&mut meta),
        Err(ParseError::UnexpectedToken { row: 3, col: 9 })
    ));
}

#[test]
fn compute_step_renders_each_operand_shape() {
    assert_eq!(
        translate_computation(ArithOp::Div, Some("a".to_string()), Some("b".to_string())),
        "a / b",
    );
    assert_eq!(translate_computation(ArithOp::Sub, Some("a".to_string()), None), "a -");
    assert_eq!(translate_computation(ArithOp::Sub, None, Some("b".to_string())), "- b");
    assert_eq!(translate_computation(ArithOp::Modulo, None, None), "%");
    assert_eq!(
        translate_computation(ArithOp::Mul, Some("2".to_string()), Some("3".to_string())),
        "2 * 3",
    );
    assert_eq!(
        translate_computation(ArithOp::Add, Some("1".to_string()), Some("2".to_string())),
        "1 + 2",
    );
}

#[test]
fn token_stream_lookahead_and_exact_match() {
    let mut meta = ParserMetadata::new(vec![tok("5", 1, 1), tok("/", 1, 3)]);
    let current = meta.get_current_token().unwrap();
    assert_eq!(current.word, "5");
    assert!(!meta.token("/"));
    assert!(meta.token("5"));
    assert!(meta.token("/"));
    assert!(meta.get_current_token().is_none());
    assert!(!meta.token("/"));
}

#[test]
fn constructed_nodes_have_the_default_shape() {
    let e = Expr::new();
    assert_eq!(e.get_type(), Type::Num);
    let d = Div::new();
    assert_eq!(d.get_type(), Type::Num);
}
