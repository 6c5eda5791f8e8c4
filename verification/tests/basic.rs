use alethia::lexer::Lexer;
use alethia::parser::Parser;
use alethia::token::{token_eq, Token};
use alethia::value::{to_decimal, Value};

#[test]
fn lexes_print_statement() {
    let mut lx = Lexer::new(String::from("print 42;"));
    assert!(token_eq(&lx.next_token(), &Token::Print));
    assert!(token_eq(&lx.next_token(), &Token::Number(42)));
    assert!(token_eq(&lx.next_token(), &Token::Semicolon));
    assert!(token_eq(&lx.next_token(), &Token::Eof));
}

#[test]
fn eof_is_idempotent() {
    let mut lx = Lexer::new(String::from("x"));
    assert!(matches!(lx.next_token(), Token::Identifier(_)));
    assert!(token_eq(&lx.next_token(), &Token::Eof));
    assert!(token_eq(&lx.next_token(), &Token::Eof));
    assert!(token_eq(&lx.next_token(), &Token::Eof));
}

#[test]
fn lexes_operators_and_strings() {
    let mut lx = Lexer::new(String::from("a == \"hi\" + 3"));
    assert!(matches!(lx.next_token(), Token::Identifier(_)));
    assert!(token_eq(&lx.next_token(), &Token::Equal));
    assert!(token_eq(&lx.next_token(), &Token::StringLiteral(String::from("hi"))));
    assert!(token_eq(&lx.next_token(), &Token::Plus));
    assert!(token_eq(&lx.next_token(), &Token::Number(3)));
    assert!(token_eq(&lx.next_token(), &Token::Eof));
}

#[test]
fn lexes_keywords() {
    let mut lx = Lexer::new(String::from("let while break func return true false nil or and"));
    assert!(token_eq(&lx.next_token(), &Token::Let));
    assert!(token_eq(&lx.next_token(), &Token::While));
    assert!(token_eq(&lx.next_token(), &Token::Break));
    assert!(token_eq(&lx.next_token(), &Token::Func));
    assert!(token_eq(&lx.next_token(), &Token::Return));
    assert!(token_eq(&lx.next_token(), &Token::True));
    assert!(token_eq(&lx.next_token(), &Token::False));
    assert!(token_eq(&lx.next_token(), &Token::Nil));
    assert!(token_eq(&lx.next_token(), &Token::Or));
    assert!(token_eq(&lx.next_token(), &Token::And));
    assert!(token_eq(&lx.next_token(), &Token::Eof));
}

#[test]
fn unterminated_string_is_unknown() {
    let mut lx = Lexer::new(String::from("\"abc"));
    assert!(token_eq(&lx.next_token(), &Token::Unknown('"')));
    assert!(token_eq(&lx.next_token(), &Token::Eof));
}

#[test]
fn decimal_point_truncates() {
    let mut lx = Lexer::new(String::from("1.9"));
    assert!(token_eq(&lx.next_token(), &Token::Number(1)));
    assert!(token_eq(&lx.next_token(), &Token::Eof));
}

fn tokens_of(src: &str) -> Vec<Token> {
    let mut lx = Lexer::new(String::from(src));
    let mut out = Vec::new();
    loop {
        let t = lx.next_token();
        let done = token_eq(&t, &Token::Eof);
        out.push(t);
        if done {
            break;
        }
    }
    out
}

#[test]
fn parses_let_and_print() {
    let mut p = Parser::new(tokens_of("let a = [10, 20, 30]; print a[1];"));
    assert!(p.parse_program().is_ok());
}

#[test]
fn parses_while_with_break() {
    let src = "let i = 0; while i < 3 { print i; i = i + 1; if i == 2 { break; }; };";
    let mut p = Parser::new(tokens_of(src));
    assert!(p.parse_program().is_ok());
}

#[test]
fn parses_function_declaration_and_call() {
    let src = "func add2(x, y) { return x + y; } print add2(1, 2);";
    let mut p = Parser::new(tokens_of(src));
    assert!(p.parse_program().is_ok());
}

#[test]
fn rejects_missing_semicolon() {
    let mut p = Parser::new(tokens_of("print 1 print 2;"));
    assert_eq!(p.parse_program().unwrap_err(), "Expected Semicolon, but found Print");
}

#[test]
fn rejects_unclosed_block() {
    let mut p = Parser::new(tokens_of("while true { print 1;"));
    assert_eq!(p.parse_program().unwrap_err(), "Expected RightCurly, but found Eof");
}

#[test]
fn names_the_unexpected_token() {
    let mut p = Parser::new(tokens_of("let 5 = 1;"));
    assert_eq!(
        p.parse_program().unwrap_err(),
        "Expected identifier after 'let', found Number(5)"
    );
    let mut q = Parser::new(tokens_of("print @;"));
    assert_eq!(q.parse_program().unwrap_err(), "Unexpected token in factor: Unknown('@')");
}

#[test]
fn renders_numbers() {
    assert_eq!(to_decimal(0), "0");
    assert_eq!(to_decimal(42), "42");
    assert_eq!(to_decimal(-7), "-7");
    assert_eq!(to_decimal(i64::MAX), "9223372036854775807");
    assert_eq!(to_decimal(i64::MIN), "-9223372036854775808");
}

#[test]
fn adds_strings_and_numbers() {
    let x = Value::String(String::from("x"));
    let one = Value::Number(1);
    match x.add(&one) {
        Ok(Value::String(s)) => assert_eq!(s, "x1"),
        other => panic!("unexpected: {:?}", other),
    }
    match one.add(&x) {
        Ok(Value::String(s)) => assert_eq!(s, "1x"),
        other => panic!("unexpected: {:?}", other),
    }
    let n = Value::Nil;
    match x.add(&n) {
        Ok(Value::String(s)) => assert_eq!(s, "xnil"),
        other => panic!("unexpected: {:?}", other),
    }
}

#[test]
fn division_truncates_and_rejects_zero() {
    let a = Value::Number(7);
    let b = Value::Number(-2);
    match a.div(&b) {
        Ok(Value::Number(n)) => assert_eq!(n, -3),
        other => panic!("unexpected: {:?}", other),
    }
    assert!(Value::Number(1).div(&Value::Number(0)).is_err());
}

#[test]
fn multiplication_repeats_strings() {
    let s = Value::String(String::from("ab"));
    match s.mul(&Value::Number(3)) {
        Ok(Value::String(t)) => assert_eq!(t, "ababab"),
        other => panic!("unexpected: {:?}", other),
    }
    assert!(s.mul(&Value::Number(-1)).is_err());
    assert!(s.mul(&Value::String(String::from("c"))).is_err());
}

#[test]
fn arithmetic_overflow_is_an_error() {
    assert!(Value::Number(i64::MAX).add(&Value::Number(1)).is_err());
    assert!(Value::Number(i64::MIN).sub(&Value::Number(1)).is_err());
    assert!(Value::Number(i64::MIN).div(&Value::Number(-1)).is_err());
}

#[test]
fn language_equality() {
    let a = Value::Array(vec![Value::Number(1), Value::String(String::from("x"))]);
    let b = Value::Array(vec![Value::Number(1), Value::String(String::from("x"))]);
    assert!(a == b);
    let c = Value::Array(vec![Value::Number(2), Value::String(String::from("x"))]);
    assert!(a != c);
    let f = Value::Function {
        name: String::from("f"),
        params: vec![],
        body: Box::new(alethia::ast::AstNode::Nil),
    };
    let g = Value::Function {
        name: String::from("f"),
        params: vec![],
        body: Box::new(alethia::ast::AstNode::Nil),
    };
    assert!(f != g);
}

#[test]
fn renders_values() {
    let v = Value::Array(vec![Value::Number(1), Value::String(String::from("x")), Value::Nil]);
    assert_eq!(v.render().unwrap(), "[1, x, nil]");
    let d = Value::Dictionary(vec![(String::from("k"), Value::Number(5))]);
    assert_eq!(d.render().unwrap(), "{\"k\": 5}");
    let f = Value::Function {
        name: String::from("f"),
        params: vec![],
        body: Box::new(alethia::ast::AstNode::Nil),
    };
    assert!(f.render().is_none());
    assert_eq!(Value::Bool(true).render().unwrap(), "true");
}
