use pysuals::ast::{
    BinaryExpr, BinaryOp, CallExpr, Component, Export, Expr, Function, IdentExpr, LiteralExpr, LiteralValue, Program, Stmt,
};
use pysuals::optimizer::inline::{copy_expr, Inliner};
use pysuals::optimizer::{optimize, Optimizer};
use pysuals::{Compiler, CompilerConfig};

fn float_binary(op: BinaryOp, a: String, b: String) -> String {
    let x: f64 = a.parse().unwrap();
    let y: f64 = b.parse().unwrap();
    let r = match op {
        BinaryOp::Add => x + y,
        BinaryOp::Sub => x - y,
        BinaryOp::Mul => x * y,
        _ => x / y,
    };
    r.to_string()
}

fn float_negate(a: String) -> String {
    let x: f64 = a.parse().unwrap();
    (-x).to_string()
}

fn float_shown(a: String) -> String {
    a.parse::<f64>().unwrap().to_string()
}

fn num(t: &str) -> Expr {
    Expr::Literal(LiteralExpr { value: LiteralValue::Number(t.to_string()), raw: t.to_string() })
}

fn ident(n: &str) -> Expr {
    Expr::Ident(IdentExpr { name: n.to_string(), global: false })
}

fn call(n: &str) -> Expr {
    Expr::Call(CallExpr { callee: Box::new(ident(n)), args: Vec::new() })
}

fn function(name: &str, body: Vec<Stmt>) -> Function {
    Function { name: name.to_string(), params: Vec::new(), body, return_type: None, is_async: false }
}

fn component(name: &str, body: Vec<Stmt>) -> Component {
    Component {
        name: name.to_string(),
        params: Vec::new(),
        body,
        signals: Vec::new(),
        computed: Vec::new(),
        effects: Vec::new(),
        css_scope: None,
    }
}

fn program(components: Vec<Component>, functions: Vec<Function>) -> Program {
    let mut p = Program::default();
    p.components = components;
    p.functions = functions;
    p
}

fn big_body() -> Vec<Stmt> {
    (0..10).map(|_| Stmt::Expr(num("1"))).collect()
}

#[test]
fn a_call_of_a_small_function_becomes_its_returned_expression() {
    let p = program(
        vec![component("App", vec![Stmt::Expr(call("answer"))])],
        vec![function("answer", vec![Stmt::Return(num("42"))])],
    );
    let mut inliner = Inliner::new();
    let r = inliner.inline(p);
    assert!(r.functions.is_empty());
    match &r.components[0].body[0] {
        Stmt::Expr(Expr::Literal(l)) => assert_eq!(l.raw, "42"),
        other => panic!("unexpected {:?}", other),
    }
}

#[test]
fn large_functions_stay() {
    let p = program(
        vec![component("App", vec![Stmt::Expr(call("big"))])],
        vec![function("big", big_body())],
    );
    let mut inliner = Inliner::new();
    let r = inliner.inline(p);
    assert_eq!(r.functions.len(), 1);
    match &r.components[0].body[0] {
        Stmt::Expr(Expr::Call(_)) => {}
        other => panic!("unexpected {:?}", other),
    }
}

#[test]
fn a_small_function_without_return_inlines_to_null() {
    let p = program(
        vec![component("App", vec![Stmt::Expr(call("noop"))])],
        vec![function("noop", vec![Stmt::Expr(ident("x"))])],
    );
    let r = Inliner::new().inline(p);
    match &r.components[0].body[0] {
        Stmt::Expr(Expr::Literal(l)) => assert_eq!(l.raw, "null"),
        other => panic!("unexpected {:?}", other),
    }
}

#[test]
fn inlining_goes_through_nested_small_functions() {
    let p = program(
        vec![component("App", vec![Stmt::Expr(call("outer"))])],
        vec![
            function("outer", vec![Stmt::Return(call("inner"))]),
            function("inner", vec![Stmt::Return(num("7"))]),
        ],
    );
    let r = Inliner::new().inline(p);
    match &r.components[0].body[0] {
        Stmt::Expr(Expr::Literal(l)) => assert_eq!(l.raw, "7"),
        other => panic!("unexpected {:?}", other),
    }
}

#[test]
fn a_self_calling_small_function_does_not_inline() {
    let p = program(vec![], vec![function("again", vec![Stmt::Return(call("again"))])]);
    assert!(Inliner::new().try_inline(p).is_none());
}

#[test]
fn copies_are_equal_in_form() {
    let e = Expr::Binary(BinaryExpr { left: Box::new(ident("a")), right: Box::new(num("2")), op: BinaryOp::Mul });
    let c = copy_expr(&e);
    assert_eq!(format!("{:?}", c), format!("{:?}", e));
}

#[test]
fn optimisation_off_hands_the_program_back() {
    let mut config = CompilerConfig::default();
    config.optimize = false;
    let p = program(vec![], vec![function("answer", vec![Stmt::Return(num("42"))])]);
    let r = optimize(p, &config, &float_binary, &float_negate).unwrap();
    assert_eq!(r.functions.len(), 1);
    let o = Optimizer::new(&config);
    assert!(!o.should_optimize());
}

#[test]
fn optimisation_folds_and_drops_unused_code() {
    let sum = Expr::Binary(BinaryExpr { left: Box::new(num("1")), right: Box::new(num("2")), op: BinaryOp::Add });
    let mut p = program(
        vec![component("App", vec![Stmt::Expr(sum), Stmt::Return(call("helper"))]), component("Unused", vec![])],
        vec![function("helper", vec![Stmt::Return(num("5"))])],
    );
    p.exports = vec![Export { name: "App".to_string(), is_default: true }];
    let mut o = Optimizer::new(&CompilerConfig::default());
    assert!(o.should_optimize());
    let r = o.optimize(p, &float_binary, &float_negate).unwrap();
    assert!(r.functions.is_empty());
    assert_eq!(r.components.len(), 1);
    assert_eq!(r.components[0].name, "App");
    match &r.components[0].body[0] {
        Stmt::Expr(Expr::Literal(l)) => assert_eq!(l.raw, "3"),
        other => panic!("unexpected {:?}", other),
    }
    match &r.components[0].body[1] {
        Stmt::Return(Expr::Call(_)) => {}
        other => panic!("unexpected {:?}", other),
    }
}

#[test]
fn building_reports_a_parse_error() {
    let c = Compiler::from_source("component (".to_string(), "in.pys".to_string(), "out.js".to_string());
    assert_eq!(c.build(&float_binary, &float_negate, &float_shown).err(), Some("Expected ident, got LParen".to_string()));
}

#[test]
fn building_makes_a_page() {
    let c = Compiler::from_source("component App():\n".to_string(), "in.pys".to_string(), "out.js".to_string());
    let page = c.build(&float_binary, &float_negate, &float_shown).unwrap();
    assert!(page.contains("App"));
}
