use pysuals::ast::{
    BinaryExpr, BinaryOp, CallExpr, Component, Export, Expr, Function, IdentExpr, IfStmt, LiteralExpr, LiteralValue,
    Program, Stmt, UnaryExpr, UnaryOp,
};
use pysuals::optimizer::constant::ConstantFolder;
use pysuals::optimizer::tree_shake::TreeShaker;

fn float_binary(op: BinaryOp, a: String, b: String) -> String {
    let x: f64 = a.parse().unwrap();
    let y: f64 = b.parse().unwrap();
    let r = match op {
        BinaryOp::Add => x + y,
        BinaryOp::Sub => x - y,
        BinaryOp::Mul => x * y,
        _ => x / y,
    };
    r.to_string()
}

fn float_negate(a: String) -> String {
    let x: f64 = a.parse().unwrap();
    (-x).to_string()
}

fn num(t: &str) -> Expr {
    Expr::Literal(LiteralExpr { value: LiteralValue::Number(t.to_string()), raw: t.to_string() })
}

fn text(t: &str) -> Expr {
    Expr::Literal(LiteralExpr::string(t.to_string()))
}

fn boolean(b: bool) -> Expr {
    Expr::Literal(LiteralExpr::boolean(b))
}

fn ident(n: &str) -> Expr {
    Expr::Ident(IdentExpr { name: n.to_string(), global: false })
}

fn bin(l: Expr, op: BinaryOp, r: Expr) -> Expr {
    Expr::Binary(BinaryExpr { left: Box::new(l), right: Box::new(r), op })
}

fn raw_of(e: &Expr) -> String {
    match e {
        Expr::Literal(l) => l.raw.clone(),
        _ => panic!("expected a literal"),
    }
}

#[test]
fn numbers_fold_with_the_given_arithmetic() {
    let mut f = ConstantFolder::new();
    let e = f.fold_expr(bin(num("1"), BinaryOp::Add, bin(num("2"), BinaryOp::Mul, num("3"))), &float_binary, &float_negate);
    assert_eq!(raw_of(&e), "7");
    let n = f.fold_expr(Expr::Unary(UnaryExpr { op: UnaryOp::Neg, expr: Box::new(num("2.5")) }), &float_binary, &float_negate);
    assert_eq!(raw_of(&n), "-2.5");
    assert!(!f.has_changed());
}

#[test]
fn operands_reach_the_arithmetic_in_order() {
    let mut f = ConstantFolder::new();
    let d = f.fold_expr(bin(num("5"), BinaryOp::Sub, num("2")), &float_binary, &float_negate);
    assert_eq!(raw_of(&d), "3");
    let q = f.fold_expr(bin(num("6"), BinaryOp::Div, num("3")), &float_binary, &float_negate);
    assert_eq!(raw_of(&q), "2");
}

#[test]
fn strings_join_and_booleans_combine() {
    let mut f = ConstantFolder::new();
    let s = f.fold_expr(bin(text("a"), BinaryOp::Add, text("b")), &float_binary, &float_negate);
    match &s {
        Expr::Literal(l) => {
            assert!(matches!(l.value, LiteralValue::String(ref v) if v == "ab"));
            assert_eq!(l.raw, "\"ab\"");
        }
        _ => panic!("expected a literal"),
    }
    let b = f.fold_expr(bin(boolean(true), BinaryOp::And, boolean(false)), &float_binary, &float_negate);
    assert_eq!(raw_of(&b), "false");
    let mixed = f.fold_expr(bin(num("1"), BinaryOp::Add, text("a")), &float_binary, &float_negate);
    assert_eq!(raw_of(&mixed), "null");
    let kept = f.fold_expr(bin(ident("x"), BinaryOp::Add, num("1")), &float_binary, &float_negate);
    assert!(matches!(kept, Expr::Binary(_)));
}

#[test]
fn constant_conditions_pick_a_branch() {
    let mut f = ConstantFolder::new();
    let t = f.fold_expr(Expr::Ternary(Box::new(boolean(true)), Box::new(ident("a")), Box::new(ident("b"))), &float_binary, &float_negate);
    assert!(matches!(t, Expr::Ident(ref i) if i.name == "a"));
    let s = f.fold_stmt(
        Stmt::If(IfStmt { cond: boolean(false), body: vec![Stmt::Return(ident("a"))], else_if: Vec::new(), else_body: None }),
        &float_binary,
        &float_negate,
    );
    assert!(matches!(s, Stmt::Block(ref b) if b.is_empty()));
    let s = f.fold_stmt(
        Stmt::If(IfStmt {
            cond: bin(num("1"), BinaryOp::Eq, num("1")),
            body: vec![Stmt::Return(ident("a"))],
            else_if: Vec::new(),
            else_body: None,
        }),
        &float_binary,
        &float_negate,
    );
    assert!(matches!(s, Stmt::If(_)));
}

fn component(name: &str, body: Vec<Stmt>) -> Component {
    Component {
        name: name.to_string(),
        params: Vec::new(),
        body,
        signals: Vec::new(),
        computed: Vec::new(),
        effects: Vec::new(),
        css_scope: None,
    }
}

fn function(name: &str) -> Function {
    Function { name: name.to_string(), params: Vec::new(), body: Vec::new(), return_type: None, is_async: false }
}

fn call(name: &str) -> Expr {
    Expr::Call(CallExpr { callee: Box::new(ident(name)), args: Vec::new() })
}

#[test]
fn tree_shaking_keeps_what_exports_reach() {
    let program = Program {
        components: vec![component("App", vec![Stmt::Expr(call("helper"))]), component("Unused", Vec::new())],
        functions: vec![function("helper"), function("other")],
        imports: Vec::new(),
        exports: vec![Export { name: "App".to_string(), is_default: true }],
        css: Vec::new(),
    };
    let mut shaker = TreeShaker::new();
    let out = shaker.shake(program);
    let names: Vec<&str> = out.components.iter().map(|c| c.name.as_str()).collect();
    assert_eq!(names, vec!["App"]);
    let fns: Vec<&str> = out.functions.iter().map(|f| f.name.as_str()).collect();
    assert_eq!(fns, vec!["helper"]);
}

#[test]
fn without_exports_the_first_component_is_the_entry() {
    let program = Program {
        components: vec![component("Main", vec![Stmt::Expr(ident("Child"))]), component("Child", Vec::new())],
        functions: vec![function("f")],
        imports: Vec::new(),
        exports: Vec::new(),
        css: Vec::new(),
    };
    let mut shaker = TreeShaker::new();
    let out = shaker.shake(program);
    assert_eq!(out.components.len(), 2);
    assert!(out.functions.is_empty());
}
