use pysuals::parser::{parse, tokenize, Parser};
use pysuals::parser::token::TokenType;
use pysuals::ast::{Expr, BinaryOp, LiteralValue, Stmt};

/// A number's text as its `f64` value prints.
fn shown(t: String) -> String {
    t.parse::<f64>().unwrap().to_string()
}

#[test]
fn tokenize_operators_and_positions() {
    let toks = tokenize("a == b");
    let kinds: Vec<TokenType> = toks.iter().map(|t| t.token_type).collect();
    assert_eq!(kinds, vec![TokenType::Ident, TokenType::EqEq, TokenType::Ident, TokenType::Eof]);
    assert_eq!(toks[1].value, "==");
    assert_eq!((toks[1].line, toks[1].column), (1, 3));
    assert_eq!((toks[3].line, toks[3].column), (1, 7));
}

#[test]
fn tokenize_keywords_strings_and_comments() {
    let toks = tokenize("component App # note\n'a\\nb' 12.5 true");
    let kinds: Vec<TokenType> = toks.iter().map(|t| t.token_type).collect();
    assert_eq!(
        kinds,
        vec![TokenType::Component, TokenType::Ident, TokenType::String, TokenType::Number, TokenType::True, TokenType::Eof]
    );
    assert_eq!(toks[2].value, "a\nb");
    assert_eq!(toks[2].line, 2);
    assert_eq!(toks[3].value, "12.5");
}

#[test]
fn tokenize_stops_at_invalid_character() {
    let toks = tokenize("a & b");
    assert_eq!(toks.len(), 1);
    assert_eq!(toks[0].token_type, TokenType::Ident);
}

#[test]
fn multiplication_binds_tighter_than_addition() {
    let mut p = Parser::new("1 + 2 * 3", &shown);
    let e = p.parse_expr().unwrap();
    match e {
        Expr::Binary(b) => {
            assert_eq!(b.op, BinaryOp::Add);
            assert!(matches!(*b.left, Expr::Literal(ref l) if matches!(l.value, LiteralValue::Number(ref n) if n == "1")));
            match *b.right {
                Expr::Binary(ref r) => assert_eq!(r.op, BinaryOp::Mul),
                _ => panic!("expected a product"),
            }
        }
        _ => panic!("expected a sum"),
    }
}

#[test]
fn call_with_arguments() {
    let mut p = Parser::new("f(1, x)", &shown);
    let e = p.parse_expr().unwrap();
    match e {
        Expr::Call(c) => {
            assert!(matches!(*c.callee, Expr::Ident(ref i) if i.name == "f" && !i.global));
            assert_eq!(c.args.len(), 2);
        }
        _ => panic!("expected a call"),
    }
}

#[test]
fn missing_parenthesis_is_reported() {
    let mut p = Parser::new("(1 + 2", &shown);
    let e = p.parse_expr();
    assert_eq!(e.unwrap_err(), "Expected RParen, got Eof");
}

#[test]
fn unexpected_token_in_expression() {
    let mut p = Parser::new(")", &shown);
    assert_eq!(p.parse_expr().unwrap_err(), "Unexpected token");
}

#[test]
fn parse_program_with_declarations() {
    let src = "import { a, b } from \"./lib\"\nexport default App\ncomponent App(title: str, n = 1):\n    x = 2\ndef helper():\n";
    let program = parse(src, &shown).unwrap();
    assert_eq!(program.imports.len(), 1);
    assert_eq!(program.imports[0].path, "./lib");
    assert_eq!(program.imports[0].names, vec!["a".to_string(), "b".to_string()]);
    assert!(!program.imports[0].is_default);
    assert_eq!(program.exports.len(), 1);
    assert!(program.exports[0].is_default);
    assert_eq!(program.components.len(), 1);
    let c = &program.components[0];
    assert_eq!(c.name, "App");
    assert_eq!(c.params.len(), 2);
    assert_eq!(c.params[0].type_hint, Some("str".to_string()));
    assert!(c.params[1].default.is_some());
    assert!(c.body.is_empty());
    assert_eq!(program.functions.len(), 1);
    assert_eq!(program.functions[0].name, "helper");
}

#[test]
fn if_statement_needs_a_space_token() {
    let mut p = Parser::new("if x: y", &shown);
    assert_eq!(p.parse_stmt().unwrap_err(), "Expected Space, got Ident");
}

#[test]
fn assignment_statement() {
    let mut p = Parser::new("x = 1 + y", &shown);
    match p.parse_stmt().unwrap() {
        Stmt::Assign(a) => {
            assert_eq!(a.target, "x");
            assert!(matches!(a.value, Expr::Binary(_)));
        }
        _ => panic!("expected an assignment"),
    }
}

#[test]
fn css_block_declaration() {
    let program = parse("css \".btn\" { color: \"red\"; }", &shown).unwrap();
    assert_eq!(program.css.len(), 1);
    assert_eq!(program.css[0].selector, ".btn");
    assert_eq!(program.css[0].rules[0].property, "color");
    assert_eq!(program.css[0].rules[0].value, "red");
    assert!(program.css[0].scoped);
}

#[test]
fn number_literals_keep_their_printed_value() {
    let mut p = Parser::new("1.50 + 007", &shown);
    match p.parse_expr().unwrap() {
        Expr::Binary(b) => {
            assert!(matches!(*b.left, Expr::Literal(ref l) if l.raw == "1.5"
                && matches!(l.value, LiteralValue::Number(ref n) if n == "1.5")));
            assert!(matches!(*b.right, Expr::Literal(ref l) if l.raw == "7"));
        }
        _ => panic!("expected a sum"),
    }
}

#[test]
fn number_with_two_dots_is_invalid() {
    let mut p = Parser::new("1.2.3", &shown);
    assert_eq!(p.parse_expr().unwrap_err(), "Invalid number");
}
