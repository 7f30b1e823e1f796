use pysuals::{Compiler, CompilerConfig};
use pysuals::ast::{BinaryExpr, BinaryOp, Expr, IdentExpr, LiteralExpr, LiteralValue};
use pysuals::codegen::js::JSGenerator;

#[test]
fn default_configuration() {
    let c = CompilerConfig::default();
    assert!(c.sourcemap && c.optimize && !c.minify && !c.hmr);
    assert_eq!(c.target, "es2020");
    assert_eq!(c.output_dir, "dist");
}

#[test]
fn dependencies_come_from_import_lines() {
    let src = "import a from \"./a\"\n  from 'b' import c\nx = 1\nimport nothing\n";
    let c = Compiler::from_source(src.to_string(), "in.pys".to_string(), "out.js".to_string());
    assert_eq!(c.get_dependencies().unwrap(), vec!["./a".to_string(), "b".to_string()]);
}

#[test]
fn analysis_counts() {
    let src = "import x from \"./x\"\ncomponent A():\ncomponent B():\n";
    let c = Compiler::from_source(src.to_string(), "in.pys".to_string(), "out.js".to_string());
    let a = c.analyze().unwrap();
    assert_eq!((a.component_count, a.import_count, a.signal_count, a.effect_count, a.line_count), (2, 1, 0, 0, 3));
}

#[test]
fn analysis_fails_as_parsing_fails() {
    let c = Compiler::from_source("component (".to_string(), "in.pys".to_string(), "out.js".to_string());
    assert_eq!(c.analyze().err(), Some("Expected ident, got LParen".to_string()));
}

#[test]
fn expressions_in_javascript() {
    let g = JSGenerator::new(&CompilerConfig::default());
    let e = Expr::Binary(BinaryExpr {
        left: Box::new(Expr::Ident(IdentExpr { name: "a".to_string(), global: false })),
        right: Box::new(Expr::Literal(LiteralExpr { value: LiteralValue::Number("1".to_string()), raw: "1".to_string() })),
        op: BinaryOp::Add,
    });
    assert_eq!(g.expr_to_string(&e), "(a + 1)");
}
