use interpreter_starter_rust::expression::{absorb_higher_precedence, classify_minus};
use interpreter_starter_rust::{
    AddExpr, Binary, BinaryType, Expression, IsPartial, MinusRole, ParseExprErrorType, Parser,
    TokenType, Tokenizer, Unary, UnaryType,
};

fn build(input: &str) -> Result<String, ParseExprErrorType> {
    let output = Tokenizer::tokenize(input.to_string());
    match Parser::parse_tokens(output.get_tokens()) {
        Ok(e) => Ok(e.to_string()),
        Err(e) => Err(e.error_type),
    }
}

#[test]
fn multiplication_binds_tighter() {
    assert_eq!(build("1 + 3 * 2"), Ok("(+ 1.0 (* 3.0 2.0))".to_string()));
    assert_eq!(build("34 - 87 * 64 - 59"), Ok("(- (- 34.0 (* 87.0 64.0)) 59.0)".to_string()));
    assert_eq!(build("1 + 2 * 3 * 4"), Ok("(+ 1.0 (* (* 2.0 3.0) 4.0))".to_string()));
    assert_eq!(build("1 * 2 + 3"), Ok("(+ (* 1.0 2.0) 3.0)".to_string()));
}

#[test]
fn comparisons_take_the_tree_as_left_operand() {
    assert_eq!(build("1 < 2"), Ok("(< 1.0 2.0)".to_string()));
    assert_eq!(build("1 == 2 + 3"), Ok("(+ (== 1.0 2.0) 3.0)".to_string()));
    assert_eq!(build("\"a\" != nil"), Ok("(!= a nil)".to_string()));
}

#[test]
fn grouping_and_unclosed_group() {
    assert_eq!(build("(1 + 3) + 5"), Ok("(+ (group (+ 1.0 3.0)) 5.0)".to_string()));
    assert_eq!(build("(1 + 3"), Err(ParseExprErrorType::UnclosedGroup));
}

#[test]
fn minus_is_unary_or_binary_by_context() {
    assert_eq!(build("4 + -1"), Ok("(+ 4.0 (- 1.0))".to_string()));
    assert_eq!(build("1 - 2"), Ok("(- 1.0 2.0)".to_string()));
    assert_eq!(build("- - 1"), Ok("(- (- 1.0))".to_string()));
    assert_eq!(build("!-1"), Ok("(! (- 1.0))".to_string()));
    assert_eq!(build("-2 * 3"), Ok("(* (- 2.0) 3.0)".to_string()));
}

#[test]
fn each_structural_error() {
    assert_eq!(build(")"), Err(ParseExprErrorType::UnmatchedParenthesis));
    assert_eq!(build("1 + 2)"), Err(ParseExprErrorType::UnmatchedParenthesis));
    assert_eq!(build("()"), Err(ParseExprErrorType::IncompleteGroup));
    assert_eq!(build("(1 +)"), Err(ParseExprErrorType::IncompleteGroup));
    assert_eq!(build("1 2"), Err(ParseExprErrorType::ExpressionFull));
    assert_eq!(build("(1) (2)"), Err(ParseExprErrorType::ExpressionFull));
    assert_eq!(build("1 + * 2"), Err(ParseExprErrorType::MissingOperand));
    assert_eq!(build("((1)"), Err(ParseExprErrorType::UnclosedGroup));
    let err = Parser::parse_tokens(&Vec::new()).unwrap_err();
    assert_eq!(err.error_type, ParseExprErrorType::EmptyToken);
    assert_eq!(err.line, 0);
}

#[test]
fn error_carries_the_line() {
    let output = Tokenizer::tokenize("1 +\n2 3".to_string());
    let err = Parser::parse_tokens(output.get_tokens()).unwrap_err();
    assert_eq!(err.error_type, ParseExprErrorType::ExpressionFull);
    assert_eq!(err.line, 2);
    let output = Tokenizer::tokenize("(1 +\n2\n".to_string());
    let err = Parser::parse_tokens(output.get_tokens()).unwrap_err();
    assert_eq!(err.error_type, ParseExprErrorType::UnclosedGroup);
    assert_eq!(err.line, 2);
    assert_eq!(err.to_string(), "[line 2] Error: Unclosed group at end of input.");
}

#[test]
fn skipped_tokens_and_empty_input() {
    assert_eq!(build(""), Ok(String::new()));
    assert_eq!(build("1 + foo 2"), Ok("(+ 1.0 2.0)".to_string()));
    assert_eq!(build("1 +"), Ok("(+ 1.0 )".to_string()));
}

#[test]
fn minus_role_follows_fullness() {
    assert_eq!(classify_minus(&Expression::Empty), MinusRole::Unary);
    assert_eq!(classify_minus(&Expression::Nil), MinusRole::Binary);
    let partial = Binary::new_expr(BinaryType::Plus, Expression::True, Expression::Empty);
    assert_eq!(classify_minus(&partial), MinusRole::Unary);
    assert!(partial.is_partial());
    let negated = Unary::new_minus_expr(Expression::Number("1.0".to_string()));
    assert_eq!(classify_minus(&negated), MinusRole::Binary);
}

#[test]
fn absorb_takes_right_operand_of_sum() {
    let sum = Binary::new_expr(
        BinaryType::Plus,
        Expression::Number("1.0".to_string()),
        Expression::Number("2.0".to_string()),
    );
    let r = absorb_higher_precedence(sum, BinaryType::Star);
    assert_eq!(r.to_string(), "(+ 1.0 (* 2.0 ))");
    let product = Binary::new_expr(
        BinaryType::Star,
        Expression::Number("1.0".to_string()),
        Expression::Number("2.0".to_string()),
    );
    let r = absorb_higher_precedence(product, BinaryType::Plus);
    assert_eq!(r.to_string(), "(+ (* 1.0 2.0) )");
    let r = absorb_higher_precedence(Expression::Nil, BinaryType::Slash);
    assert_eq!(r.to_string(), "(/ nil )");
}

#[test]
fn printing_forms() {
    let e = Expression::Grouping(Box::new(Unary::new_bang_expr(Expression::False)));
    assert_eq!(e.to_string(), "(group (! false))");
    assert_eq!(Expression::Str("hi there".to_string()).to_string(), "hi there");
    let filled = Expression::Empty.add_expr(Expression::Nil).unwrap();
    assert_eq!(filled.to_string(), "nil");
    assert_eq!(
        Expression::Nil.add_expr(Expression::True).unwrap_err(),
        ParseExprErrorType::ExpressionFull
    );
    let half = Binary::new(BinaryType::Less, Expression::Nil, Expression::Empty);
    assert_eq!(half.add_expr(Expression::True).unwrap().to_string(), "(< nil true)");
    let neg = Unary::new_minus(Expression::Empty);
    assert_eq!(neg.add_expr(Expression::Nil).unwrap().to_string(), "(- nil)");
    let full = Unary::new_bang(Expression::True);
    assert_eq!(full.add_expr(Expression::Nil).unwrap_err(), ParseExprErrorType::ExpressionFull);
}

#[test]
fn accessors_and_fullness() {
    let sum = Binary::new_expr(BinaryType::Plus, Expression::Nil, Expression::Empty);
    assert!(sum.is_binary());
    assert!(!sum.is_unary());
    assert_eq!(sum.get_binary().map(|b| b.binary_type), Some(BinaryType::Plus));
    assert!(sum.get_unary().is_none());
    assert!(sum.get_binary().unwrap().is_partial());
    assert!(!sum.is_full());
    let neg = Unary::new_minus_expr(Expression::True);
    assert_eq!(neg.get_unary().map(|u| u.unary_type), Some(UnaryType::Minus));
    assert!(neg.get_unary().unwrap().is_full());
    assert!(Expression::Empty.is_none());
    assert!(Expression::Empty.is_partial());
    let bang = Unary::new_bang(Expression::Empty);
    assert_eq!(bang.unary_type, UnaryType::Bang);
    assert!(bang.is_partial());
}

#[test]
fn add_expr_places_new_operators() {
    let sum = Binary::new(
        BinaryType::Plus,
        Expression::Number("1.0".to_string()),
        Expression::Number("2.0".to_string()),
    );
    let r = sum.add_expr(Binary::new_empty_expr(BinaryType::Star)).unwrap();
    assert_eq!(r.to_string(), "(+ 1.0 (* 2.0 ))");
    let r = Expression::True.add_expr(Binary::new_empty_expr(BinaryType::EqualEqual)).unwrap();
    assert_eq!(r.to_string(), "(== true )");
    let r = r.add_expr(Expression::False).unwrap();
    assert_eq!(r.to_string(), "(== true false)");
    let neg = Unary::new_minus(Expression::Number("1.0".to_string()));
    let r = neg.add_expr(Binary::new_empty_expr(BinaryType::Slash)).unwrap();
    assert_eq!(r.to_string(), "(/ (- 1.0) )");
    let group = Expression::Grouping(Box::new(Expression::Nil));
    let r = group.add_expr(Binary::new_empty_expr(BinaryType::Less)).unwrap();
    assert_eq!(r.to_string(), "(< (group nil) )");
    let product = Binary::new(BinaryType::Star, Expression::Nil, Expression::Nil);
    let r = product.add_expr(Binary::new_empty_expr(BinaryType::Minus)).unwrap();
    assert_eq!(r.to_string(), "(- (* nil nil) )");
    let r = Expression::Empty.add_expr(Binary::new_empty_expr(BinaryType::Plus)).unwrap();
    assert_eq!(r.to_string(), "(+  )");
    assert_eq!(build("true == false"), Ok("(== true false)".to_string()));
}

#[test]
fn filter_takes_in_separators() {
    for t in [TokenType::Equal, TokenType::Comma, TokenType::Semicolon, TokenType::Dot] {
        assert!(Parser::token_filter(&t));
    }
    for t in [TokenType::Identifier, TokenType::LeftCurly, TokenType::EOF, TokenType::Var] {
        assert!(!Parser::token_filter(&t));
    }
    assert_eq!(build("1 + 2;"), Ok("(+ 1.0 2.0)".to_string()));
    assert_eq!(build("2."), Ok("2.0".to_string()));
    let output = Tokenizer::tokenize("(1 +\n2\n;".to_string());
    let err = Parser::parse_tokens(output.get_tokens()).unwrap_err();
    assert_eq!(err.error_type, ParseExprErrorType::UnclosedGroup);
    assert_eq!(err.line, 3);
}
