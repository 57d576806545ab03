use calculator::convert::infix_to_postfix;
use calculator::evaluate::{expression_tree, BinaryOp, EvalError, Expr, UnaryOp, Unsupported};
use calculator::lexer::{operator_named, parse, symbol_token, LexError};
use calculator::pipeline::{evaluate_text, CalcError};
use calculator::token::Token;

fn num(text: &str) -> Token {
    Token::Number(text.to_string())
}

fn leaf(text: &str) -> Box<Expr> {
    Box::new(Expr::Number(text.to_string()))
}

fn factorial(n: f64) -> f64 {
    if n < 2.0 {
        1.0
    } else {
        n * factorial(n - 1.0)
    }
}

/// Numeric value of the operators these tests use.
fn value(e: &Expr) -> f64 {
    match e {
        Expr::Number(text) => text.parse().unwrap(),
        Expr::Unary(op, a) => {
            let a = value(a);
            match op {
                UnaryOp::Negation => a * -1.0,
                UnaryOp::Factorial => factorial(a),
                UnaryOp::SquareRoot => a.sqrt(),
                other => panic!("no value for {:?}", other),
            }
        }
        Expr::Binary(op, a, b) => {
            let (a, b) = (value(a), value(b));
            match op {
                BinaryOp::Plus => a + b,
                BinaryOp::Minus => a - b,
                BinaryOp::Multiplication => a * b,
                BinaryOp::Division => a / b,
                BinaryOp::Power => a.powf(b),
                BinaryOp::Permutation => factorial(a) / factorial(a - b),
                BinaryOp::Combination => factorial(a) / (factorial(a - b) * factorial(b)),
            }
        }
    }
}

fn run(text: &str) -> f64 {
    let tokens = parse(text).unwrap();
    let postfix = infix_to_postfix(&tokens);
    value(&expression_tree(&postfix).unwrap())
}

#[test]
fn numeric_literal_is_one_number() {
    for text in ["0", "42", "12.5", "3.14159", "007.250"] {
        let tokens = parse(text).unwrap();
        assert_eq!(tokens, vec![num(text)]);
        match &tokens[0] {
            Token::Number(t) => assert_eq!(t.parse::<f64>().unwrap(), text.parse::<f64>().unwrap()),
            other => panic!("not a number: {:?}", other),
        }
    }
}

#[test]
fn number_at_end_of_input_stops_the_literal() {
    assert_eq!(parse("1+23").unwrap(), vec![num("1"), Token::Plus, num("23")]);
    assert_eq!(parse("5.").unwrap(), vec![num("5.")]);
    assert_eq!(parse(".5").unwrap(), vec![num(".5")]);
}

#[test]
fn whitespace_is_skipped() {
    assert_eq!(parse(" 3 +\r\n4 ").unwrap(), vec![num("3"), Token::Plus, num("4")]);
    assert_eq!(parse("").unwrap(), vec![]);
}

#[test]
fn round_trip_sum() {
    assert_eq!(run("3+4"), 7.0);
}

#[test]
fn round_trip_parenthesised_product() {
    assert_eq!(run("2*(3+4)"), 14.0);
}

#[test]
fn implicit_multiplication_before_parenthesis() {
    assert_eq!(run("2(3+4)"), 14.0);
    assert_eq!(run("(1+1)(3+4)"), 14.0);
    let postfix = infix_to_postfix(&parse("2(3)").unwrap());
    assert_eq!(postfix, vec![num("2"), num("3"), Token::Multiplication]);
}

#[test]
fn implicit_multiplication_before_function() {
    let postfix = infix_to_postfix(&parse("3sqrt(4)").unwrap());
    assert_eq!(
        postfix,
        vec![num("3"), num("4"), Token::SquareRoot, Token::Multiplication]
    );
    assert_eq!(run("3sqrt(4)"), 6.0);
}

#[test]
fn leading_minus_is_negation() {
    assert_eq!(run("-5"), -5.0);
    let postfix = infix_to_postfix(&parse("-5").unwrap());
    assert_eq!(postfix, vec![num("5"), Token::Negation]);
}

#[test]
fn minus_between_numbers_is_subtraction() {
    assert_eq!(run("3-2"), 1.0);
}

#[test]
fn minus_after_operator_is_negation() {
    assert_eq!(run("3*-2"), -6.0);
    assert_eq!(run("(-2)"), -2.0);
}

#[test]
fn product_binds_tighter_than_sum() {
    assert_eq!(run("2+3*4"), 14.0);
    let postfix = infix_to_postfix(&parse("2+3*4").unwrap());
    assert_eq!(
        postfix,
        vec![num("2"), num("3"), num("4"), Token::Multiplication, Token::Plus]
    );
}

#[test]
fn equal_operators_group_to_the_right() {
    let tree = expression_tree(&infix_to_postfix(&parse("2^3^2").unwrap())).unwrap();
    assert_eq!(
        tree,
        Expr::Binary(
            BinaryOp::Power,
            leaf("2"),
            Box::new(Expr::Binary(BinaryOp::Power, leaf("3"), leaf("2")))
        )
    );
    assert_eq!(run("2^3^2"), 512.0);
    // subtraction groups the same way: 8-(4-2)
    assert_eq!(run("8-4-2"), 6.0);
}

#[test]
fn factorial_of_five() {
    assert_eq!(run("5!"), 120.0);
    let tree = expression_tree(&infix_to_postfix(&parse("5!").unwrap())).unwrap();
    assert_eq!(tree, Expr::Unary(UnaryOp::Factorial, leaf("5")));
}

#[test]
fn permutation_and_combination_words() {
    assert_eq!(parse("5P2").unwrap(), vec![num("5"), Token::Permutation, num("2")]);
    assert_eq!(run("5 p 2"), 20.0);
    assert_eq!(run("5 C 2"), 10.0);
}

#[test]
fn unknown_character_fails() {
    assert_eq!(parse("2 & 3"), Err(LexError::UnknownCharacter('&')));
    assert_eq!(parse("1\t2"), Err(LexError::UnknownCharacter('\t')));
}

#[test]
fn mod_is_no_operator_name() {
    assert_eq!(
        evaluate_text("3 mod 2"),
        Err(CalcError::Lex(LexError::UnknownOperator("mod".to_string())))
    );
}

#[test]
fn modulo_is_not_evaluated() {
    let postfix = infix_to_postfix(&parse("3 % 2").unwrap());
    assert_eq!(postfix, vec![num("3"), num("2"), Token::Modulo]);
    assert_eq!(
        expression_tree(&postfix),
        Err(EvalError::UnsupportedOperator(Unsupported::Modulo))
    );
}

#[test]
fn arctangent_is_not_evaluated() {
    let tokens = parse("atan(1)").unwrap();
    assert_eq!(
        tokens,
        vec![Token::ArcTan, Token::OpeningParentheses, num("1"), Token::ClosingParentheses]
    );
    let postfix = infix_to_postfix(&tokens);
    assert_eq!(postfix, vec![num("1"), Token::ArcTan]);
    assert_eq!(
        expression_tree(&postfix),
        Err(EvalError::UnsupportedOperator(Unsupported::ArcTan))
    );
    assert_eq!(
        evaluate_text("acos(1)"),
        Err(CalcError::Eval(EvalError::UnsupportedOperator(Unsupported::ArcCos)))
    );
}

#[test]
fn same_text_twice_gives_same_result() {
    for text in ["2*(3+4)", "2 & 3", "atan(1)", "5!"] {
        assert_eq!(evaluate_text(text), evaluate_text(text));
    }
}

#[test]
fn invalid_numbers_fail() {
    assert_eq!(parse("1..2"), Err(LexError::InvalidNumber("1..2".to_string())));
    assert_eq!(parse("1.2.3+4"), Err(LexError::InvalidNumber("1.2.3".to_string())));
    assert_eq!(parse("."), Err(LexError::InvalidNumber(".".to_string())));
}

#[test]
fn unknown_word_fails_lowercased() {
    assert_eq!(parse("2 FOO"), Err(LexError::UnknownOperator("foo".to_string())));
}

#[test]
fn operator_words_ignore_case() {
    assert_eq!(
        parse("SIN Cos tAn ASIN acos atan LN log sqrt").unwrap(),
        vec![
            Token::Sin,
            Token::Cos,
            Token::Tan,
            Token::ArcSin,
            Token::ArcCos,
            Token::ArcTan,
            Token::NaturalLogarithm,
            Token::Logarithm,
            Token::SquareRoot
        ]
    );
    assert_eq!(operator_named("sqrt"), Some(Token::SquareRoot));
    assert_eq!(operator_named("SQRT"), None);
    assert_eq!(operator_named("mod"), None);
}

#[test]
fn single_character_symbols() {
    let tokens = parse("+-*/%^!~()").unwrap();
    assert_eq!(
        tokens,
        vec![
            Token::Plus,
            Token::Minus,
            Token::Multiplication,
            Token::Division,
            Token::Modulo,
            Token::Power,
            Token::Factorial,
            Token::Negation,
            Token::OpeningParentheses,
            Token::ClosingParentheses
        ]
    );
    assert_eq!(symbol_token('a'), None);
}

#[test]
fn missing_operand_underflows() {
    assert_eq!(evaluate_text("+"), Err(CalcError::Eval(EvalError::StackUnderflow)));
    assert_eq!(evaluate_text("sqrt"), Err(CalcError::Eval(EvalError::StackUnderflow)));
    assert_eq!(evaluate_text("2*"), Err(CalcError::Eval(EvalError::StackUnderflow)));
}

#[test]
fn result_must_be_one_value() {
    assert_eq!(evaluate_text(""), Err(CalcError::Eval(EvalError::InvalidResult)));
    assert_eq!(evaluate_text("2 3"), Err(CalcError::Eval(EvalError::InvalidResult)));
}

#[test]
fn unmatched_parentheses_are_tolerated() {
    let postfix = infix_to_postfix(&parse("(3").unwrap());
    assert_eq!(postfix, vec![num("3"), Token::OpeningParentheses]);
    assert_eq!(run("(3"), 3.0);
    assert_eq!(run("3+4)*2"), 14.0);
}

#[test]
fn division_by_zero_is_infinite() {
    assert_eq!(run("1/0"), f64::INFINITY);
}

#[test]
fn classification_queries() {
    assert!(Token::Factorial.is_operator());
    assert!(Token::Plus.is_operator());
    assert!(!Token::OpeningParentheses.is_operator());
    assert!(!num("3").is_operator());
    assert!(Token::Factorial.is_unary_operator());
    assert!(Token::ArcTan.is_unary_operator());
    assert!(!Token::Plus.is_unary_operator());
    assert!(!Token::Modulo.is_unary_operator());
    assert!(num("3").is_number());
    assert!(!Token::Plus.is_number());
}

#[test]
fn precedence_order() {
    assert!(Token::SquareRoot.has_higher_precedence_than(&Token::Plus));
    assert!(!Token::Tan.has_higher_precedence_than(&Token::Negation));
    assert!(Token::Negation.has_higher_precedence_than(&Token::Factorial));
    assert!(Token::Plus.has_higher_precedence_than(&Token::Minus));
    assert!(Token::Division.has_higher_precedence_than(&Token::Multiplication));
    assert!(!Token::Power.has_higher_precedence_than(&Token::Power));
}

#[test]
fn duplicate_keeps_number_text() {
    assert_eq!(num("2.5").duplicate(), num("2.5"));
    assert_eq!(Token::Cos.duplicate(), Token::Cos);
}
