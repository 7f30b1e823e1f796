//! JavaScript output for a program.
use vstd::prelude::*;
use crate::ast::{
    Program, Component, Function, Stmt, Expr, BinaryOp, UnaryOp, ObjectProp, TemplateElement, BinaryExpr, Signal, Computed,
    Effect, Param,
};
use crate::ast::debug::{expr_debug, write_debug};
use crate::text::{owned, push_str, push_string, push_char, join, views};
use crate::CompilerConfig;

verus! {

/// One level deeper (wrapping at the end of `usize`).
pub open spec fn inc(i: int) -> int {
    if i == usize::MAX { 0 } else { i + 1 }
}

/// Two spaces per level.
pub open spec fn indent_text(n: nat) -> Seq<char>
    decreases n,
{
    if n == 0 { seq![] } else { indent_text((n - 1) as nat) + seq![' ', ' '] }
}

/// A line: indented text and a newline; an empty text gives the newline
/// alone.
pub open spec fn line(ind: int, t: Seq<char>) -> Seq<char> {
    (if t.len() == 0 { seq![] } else { indent_text(ind as nat) + t }) + seq!['\n']
}

pub open spec fn bin_op_js(op: BinaryOp) -> Seq<char> {
    match op {
        BinaryOp::Add => "+"@,
        BinaryOp::Sub => "-"@,
        BinaryOp::Mul => "*"@,
        BinaryOp::Div => "/"@,
        BinaryOp::Mod => "%"@,
        BinaryOp::Eq => "==="@,
        BinaryOp::NotEq => "!=="@,
        BinaryOp::Lt => "<"@,
        BinaryOp::Gt => ">"@,
        BinaryOp::LtEq => "<="@,
        BinaryOp::GtEq => ">="@,
        BinaryOp::And => "&&"@,
        BinaryOp::Or => "||"@,
        BinaryOp::Nullish => "??"@,
    }
}

/// Each operator is written as its own JavaScript operator: equality as
/// strict `===`, inequality as strict `!==`, and no two operators share
/// one spelling.
pub proof fn lemma_bin_op_js_distinct(a: BinaryOp, b: BinaryOp)
    ensures
        a != b ==> bin_op_js(a) != bin_op_js(b),
        bin_op_js(BinaryOp::Eq) == "==="@,
        bin_op_js(BinaryOp::NotEq) == "!=="@,
{
    reveal_strlit("+");
    reveal_strlit("-");
    reveal_strlit("*");
    reveal_strlit("/");
    reveal_strlit("%");
    reveal_strlit("===");
    reveal_strlit("!==");
    reveal_strlit("<");
    reveal_strlit(">");
    reveal_strlit("<=");
    reveal_strlit(">=");
    reveal_strlit("&&");
    reveal_strlit("||");
    reveal_strlit("??");
    let x = bin_op_js(a);
    let y = bin_op_js(b);
    if a != b && x == y {
        assert(x.len() == y.len());
        assert(x[0] == y[0]);
        if x.len() > 1 {
            assert(x[1] == y[1]);
        }
    }
}

/// Each unary operator is written as its own JavaScript operator.
pub proof fn lemma_un_op_js_distinct(a: UnaryOp, b: UnaryOp)
    ensures
        a != b ==> un_op_js(a) != un_op_js(b),
        un_op_js(UnaryOp::Not) == "!"@,
        un_op_js(UnaryOp::Neg) == "-"@,
{
    reveal_strlit("!");
    reveal_strlit("-");
    reveal_strlit("typeof ");
    reveal_strlit("void ");
    let x = un_op_js(a);
    let y = un_op_js(b);
    if a != b && x == y {
        assert(x.len() == y.len());
        assert(x[0] == y[0]);
    }
}

/// Two binary expressions over the same operands but with different
/// operators are written as different JavaScript: the generator never
/// turns one operator into another.
pub proof fn lemma_binary_js_keeps_operator(l: Expr, r: Expr, a: BinaryOp, b: BinaryOp)
    requires
        a != b,
    ensures
        expr_js(Expr::Binary(BinaryExpr { left: Box::new(l), right: Box::new(r), op: a })) != expr_js(
            Expr::Binary(BinaryExpr { left: Box::new(l), right: Box::new(r), op: b }),
        ),
{
    lemma_bin_op_js_distinct(a, b);
    let x = bin_op_js(a);
    let y = bin_op_js(b);
    let lt = expr_js(l);
    let rt = expr_js(r);
    let s1 = "("@ + lt + " "@ + x + " "@ + rt + ")"@;
    let s2 = "("@ + lt + " "@ + y + " "@ + rt + ")"@;
    assert(expr_js(Expr::Binary(BinaryExpr { left: Box::new(l), right: Box::new(r), op: a })) == s1);
    assert(expr_js(Expr::Binary(BinaryExpr { left: Box::new(l), right: Box::new(r), op: b })) == s2);
    reveal_strlit("(");
    reveal_strlit(" ");
    reveal_strlit(")");
    let k: int = 1 + lt.len() as int + 1;
    if s1 == s2 {
        if x.len() == y.len() {
            assert(s1.subrange(k, k + x.len() as int) =~= x);
            assert(s2.subrange(k, k + y.len() as int) =~= y);
        } else {
            assert(s1.len() != s2.len());
        }
    }
}

pub open spec fn un_op_js(op: UnaryOp) -> Seq<char> {
    match op {
        UnaryOp::Not => "!"@,
        UnaryOp::Neg => "-"@,
        UnaryOp::Typeof => "typeof "@,
        UnaryOp::Void => "void "@,
    }
}

/// The JavaScript text of an expression.
pub open spec fn expr_js(e: Expr) -> Seq<char>
    decreases e, 0nat,
{
    match e {
        Expr::Literal(l) => l.raw@,
        Expr::Ident(i) => i.name@,
        Expr::Call(c) => expr_js(*c.callee) + "("@ + exprs_js(c.args@) + ")"@,
        Expr::Binary(b) => "("@ + expr_js(*b.left) + " "@ + bin_op_js(b.op) + " "@ + expr_js(*b.right) + ")"@,
        Expr::Unary(u) => un_op_js(u.op) + expr_js(*u.expr),
        Expr::Member(m) => if m.computed {
            expr_js(*m.obj) + "["@ + m.prop@ + "]"@
        } else {
            expr_js(*m.obj) + "."@ + m.prop@
        },
        Expr::Object(o) => "{ "@ + props_js(o.props@) + " }"@,
        Expr::Array(a) => "["@ + exprs_js(a.elements@) + "]"@,
        Expr::Lambda(l) => "("@ + join(views(l.params@), ", "@) + ") => "@ + expr_js(*l.body),
        Expr::Ternary(c, t, f) => expr_js(*c) + " ? "@ + expr_js(*t) + " : "@ + expr_js(*f),
        Expr::Template(t) => "`"@ + tmpl_js(t.expressions@, t.quasis@) + "`"@,
        Expr::Await(a) => "await "@ + expr_js(*a.expr),
        Expr::Spread(s) => "..."@ + expr_js(*s.expr),
    }
}

/// Expressions joined by `", "`.
pub open spec fn exprs_js(s: Seq<Expr>) -> Seq<char>
    decreases s, 0nat,
{
    if s.len() == 0 {
        seq![]
    } else if s.len() == 1 {
        expr_js(s[0])
    } else {
        exprs_js(s.drop_last()) + ", "@ + expr_js(s.last())
    }
}

pub open spec fn props_js(s: Seq<ObjectProp>) -> Seq<char>
    decreases s, 0nat,
{
    if s.len() == 0 {
        seq![]
    } else if s.len() == 1 {
        s[0].key@ + ": "@ + expr_js(s[0].value)
    } else {
        props_js(s.drop_last()) + ", "@ + s.last().key@ + ": "@ + expr_js(s.last().value)
    }
}

/// The inside of a template: each text piece, followed by `${..}` around
/// the expression of the same position where there is one.
pub open spec fn tmpl_js(es: Seq<Expr>, q: Seq<TemplateElement>) -> Seq<char>
    decreases es, q.len(),
{
    if q.len() == 0 {
        seq![]
    } else {
        let k = q.len() - 1;
        tmpl_js(es, q.drop_last()) + q.last().value@ + if k < es.len() {
            "${"@ + expr_js(es[k]) + "}"@
        } else {
            seq![]
        }
    }
}

/// The text of a statement at indentation `ind`. A simple statement is
/// written where the output stands and its `;` closes an indented line.
pub open spec fn stmt_js(ind: int, s: Stmt) -> Seq<char>
    decreases s,
{
    match s {
        Stmt::Expr(e) => expr_js(e) + line(ind, ";"@),
        Stmt::Return(e) => "return "@ + expr_js(e) + line(ind, ";"@),
        Stmt::Assign(a) => a.target@ + " = "@ + expr_js(a.value) + line(ind, ";"@),
        Stmt::Var(v) => (if v.is_const { "const"@ } else { "let"@ }) + " "@ + v.name@ + " = "@ + expr_js(v.value)
            + line(ind, ";"@),
        Stmt::If(i) => "if ("@ + expr_js(i.cond) + ") {"@ + line(ind, ""@) + stmts_js(inc(ind), i.body@) + line(
            ind,
            "}"@,
        ) + elifs_js(ind, i.else_if@) + match i.else_body {
            Some(b) => line(ind, " else {"@) + stmts_js(inc(ind), b@) + line(ind, "}"@),
            None => seq![],
        },
        Stmt::For(f) => "for (const "@ + f.item@ + " of "@ + expr_js(f.iter) + ") {"@ + line(ind, ""@) + stmts_js(
            inc(ind),
            f.body@,
        ) + line(ind, "}"@),
        Stmt::While(w) => "while ("@ + expr_js(w.cond) + ") {"@ + line(ind, ""@) + stmts_js(inc(ind), w.body@)
            + line(ind, "}"@),
        Stmt::Block(b) => line(ind, "{"@) + stmts_js(inc(ind), b@) + line(ind, "}"@),
    }
}

pub open spec fn stmts_js(ind: int, s: Seq<Stmt>) -> Seq<char>
    decreases s,
{
    if s.len() == 0 { seq![] } else { stmts_js(ind, s.drop_last()) + stmt_js(ind, s.last()) }
}

pub open spec fn elifs_js(ind: int, s: Seq<(Expr, Vec<Stmt>)>) -> Seq<char>
    decreases s,
{
    if s.len() == 0 {
        seq![]
    } else {
        elifs_js(ind, s.drop_last()) + " else if ("@ + expr_js(s.last().0) + ") {"@ + line(ind, ""@) + stmts_js(
            inc(ind),
            s.last().1@,
        ) + line(ind, "}"@)
    }
}

pub open spec fn signals_js(ind: int, s: Seq<Signal>) -> Seq<char>
    decreases s.len(),
{
    if s.len() == 0 {
        seq![]
    } else {
        signals_js(ind, s.drop_last()) + line(
            ind,
            "const [get"@ + s.last().name@ + ", set"@ + s.last().name@ + "] = signal("@ + expr_debug(s.last().initial)
                + ");"@,
        )
    }
}

pub open spec fn computeds_js(ind: int, s: Seq<Computed>) -> Seq<char>
    decreases s.len(),
{
    if s.len() == 0 {
        seq![]
    } else {
        computeds_js(ind, s.drop_last()) + line(ind, "const "@ + s.last().name@ + " = computed(() => {"@) + line(
            inc(ind),
            "return "@ + expr_js(s.last().body) + ";"@,
        ) + line(ind, "});"@)
    }
}

pub open spec fn effects_js(ind: int, s: Seq<Effect>) -> Seq<char>
    decreases s.len(),
{
    if s.len() == 0 {
        seq![]
    } else {
        effects_js(ind, s.drop_last()) + line(ind, "effect(() => {"@) + stmts_js(inc(ind), s.last().body@) + line(
            ind,
            "});"@,
        )
    }
}

/// The rendered expression of a component: that of a `return` when it is
/// the first statement of the body.
pub open spec fn render_js(body: Seq<Stmt>) -> Seq<char> {
    if body.len() > 0 {
        match body[0] {
            Stmt::Return(e) => expr_js(e),
            _ => seq![],
        }
    } else {
        seq![]
    }
}

pub open spec fn component_js(ind: int, c: Component) -> Seq<char> {
    line(ind, "export function "@ + c.name@ + "() {"@) + signals_js(inc(ind), c.signals@) + computeds_js(
        inc(ind),
        c.computed@,
    ) + effects_js(inc(ind), c.effects@) + line(inc(ind), "return ("@) + render_js(c.body@) + line(
        inc(ind),
        ");"@,
    ) + line(ind, "}"@) + line(ind, ""@)
}

pub open spec fn param_names(s: Seq<Param>) -> Seq<Seq<char>> {
    s.map_values(|p: Param| p.name@)
}

pub open spec fn function_js(ind: int, f: Function) -> Seq<char> {
    line(ind, "export function "@ + f.name@ + "("@) + line(ind, "  "@ + join(param_names(f.params@), ", "@)) + line(
        ind,
        ") {"@,
    ) + stmts_js(inc(ind), f.body@) + line(ind, "}"@) + line(ind, ""@)
}

pub open spec fn components_js(ind: int, s: Seq<Component>) -> Seq<char>
    decreases s.len(),
{
    if s.len() == 0 { seq![] } else { components_js(ind, s.drop_last()) + component_js(ind, s.last()) }
}

pub open spec fn functions_js(ind: int, s: Seq<Function>) -> Seq<char>
    decreases s.len(),
{
    if s.len() == 0 { seq![] } else { functions_js(ind, s.drop_last()) + function_js(ind, s.last()) }
}

/// The module for a program: the runtime import, each component, each
/// function, and the mounting of the first component.
pub open spec fn program_js(ind: int, p: Program) -> Seq<char> {
    line(ind, "import { signal, effect, h, mount } from '@pysuals/runtime';"@) + line(ind, ""@) + components_js(
        ind,
        p.components@,
    ) + functions_js(ind, p.functions@) + line(ind, ""@) + line(ind, "// Mount application"@) + line(
        ind,
        "const root = document.getElementById('app');"@,
    ) + if p.components@.len() > 0 {
        line(ind, "mount("@ + p.components@[0].name@ + ", root);"@)
    } else {
        seq![]
    }
}

pub struct JSGenerator {
    output: String,
    indent: usize,
    config: CompilerConfig,
}

fn binary_op_to_string(op: BinaryOp) -> (s: &'static str)
    ensures
        s@ == bin_op_js(op),
{
    match op {
        BinaryOp::Add => "+",
        BinaryOp::Sub => "-",
        BinaryOp::Mul => "*",
        BinaryOp::Div => "/",
        BinaryOp::Mod => "%",
        BinaryOp::Eq => "===",
        BinaryOp::NotEq => "!==",
        BinaryOp::Lt => "<",
        BinaryOp::Gt => ">",
        BinaryOp::LtEq => "<=",
        BinaryOp::GtEq => ">=",
        BinaryOp::And => "&&",
        BinaryOp::Or => "||",
        BinaryOp::Nullish => "??",
    }
}

fn unary_op_to_string(op: UnaryOp) -> (s: &'static str)
    ensures
        s@ == un_op_js(op),
{
    match op {
        UnaryOp::Not => "!",
        UnaryOp::Neg => "-",
        UnaryOp::Typeof => "typeof ",
        UnaryOp::Void => "void ",
    }
}

impl JSGenerator {
    pub closed spec fn depth(&self) -> int {
        self.indent as int
    }

    pub fn new(config: &CompilerConfig) -> (g: JSGenerator)
        ensures
            g.depth() == 0,
    {
        JSGenerator { output: String::new(), indent: 0, config: config.copy() }
    }

    /// The module text for `program`, written from the current indentation.
    #[verifier::rlimit(60)]
    pub fn generate(&mut self, program: &Program) -> (r: String)
        ensures
            r@ == program_js(old(self).depth(), *program),
            final(self).depth() == old(self).depth(),
    {
        self.output = String::new();
        self.emit_line("import { signal, effect, h, mount } from '@pysuals/runtime';");
        self.emit_line("");
        let ghost o1 = self.output@;
        let mut i: usize = 0;
        while i < program.components.len()
            invariant
                i <= program.components.len(),
                self.indent == old(self).indent,
                self.output@ == o1 + components_js(self.indent as int, program.components@.take(i as int)),
            decreases program.components.len() - i,
        {
            self.generate_component(&program.components[i]);
            assert(program.components@.take(i + 1).drop_last() =~= program.components@.take(i as int));
            i += 1;
        }
        assert(program.components@.take(program.components.len() as int) =~= program.components@);
        let ghost o2 = self.output@;
        let mut j: usize = 0;
        while j < program.functions.len()
            invariant
                j <= program.functions.len(),
                self.indent == old(self).indent,
                self.output@ == o2 + functions_js(self.indent as int, program.functions@.take(j as int)),
            decreases program.functions.len() - j,
        {
            self.generate_function(&program.functions[j]);
            assert(program.functions@.take(j + 1).drop_last() =~= program.functions@.take(j as int));
            j += 1;
        }
        assert(program.functions@.take(program.functions.len() as int) =~= program.functions@);
        self.emit_line("");
        self.emit_line("// Mount application");
        self.emit_line("const root = document.getElementById('app');");
        if program.components.len() > 0 {
            let mut m = owned("mount(");
            push_string(&mut m, &program.components[0].name);
            push_str(&mut m, ", root);");
            self.emit_line(m.as_str());
        }
        assert(self.output@ =~= program_js(old(self).depth(), *program));
        self.output.clone()
    }

    #[verifier::rlimit(50)]
    fn generate_component(&mut self, component: &Component)
        ensures
            final(self).output@ == old(self).output@ + component_js(old(self).indent as int, *component),
            final(self).indent == old(self).indent,
    {
        let ghost ind = self.indent as int;
        let mut head = owned("export function ");
        push_string(&mut head, &component.name);
        push_str(&mut head, "() {");
        self.emit_line(head.as_str());
        self.indent = self.indent.wrapping_add(1);
        self.emit_signals(&component.signals);
        self.emit_computeds(&component.computed);
        self.emit_effects(&component.effects);
        self.emit_line("return (");
        self.emit_render(&component.body);
        self.emit_line(");");
        self.indent = self.indent.wrapping_sub(1);
        self.emit_line("}");
        self.emit_line("");
        assert(self.output@ =~= old(self).output@ + component_js(ind, *component));
    }

    fn emit_signals(&mut self, signals: &Vec<Signal>)
        ensures
            final(self).output@ == old(self).output@ + signals_js(old(self).indent as int, signals@),
            final(self).indent == old(self).indent,
    {
        let mut i: usize = 0;
        while i < signals.len()
            invariant
                i <= signals.len(),
                self.indent == old(self).indent,
                self.output@ == old(self).output@ + signals_js(self.indent as int, signals@.take(i as int)),
            decreases signals.len() - i,
        {
            let s = &signals[i];
            let mut t = owned("const [get");
            push_string(&mut t, &s.name);
            push_str(&mut t, ", set");
            push_string(&mut t, &s.name);
            push_str(&mut t, "] = signal(");
            write_debug(&s.initial, &mut t);
            push_str(&mut t, ");");
            self.emit_line(t.as_str());
            assert(signals@.take(i + 1).drop_last() =~= signals@.take(i as int));
            assert(self.output@ =~= old(self).output@ + signals_js(self.indent as int, signals@.take(i + 1)));
            i += 1;
        }
        assert(signals@.take(signals.len() as int) =~= signals@);
    }

    fn emit_computeds(&mut self, computed: &Vec<Computed>)
        ensures
            final(self).output@ == old(self).output@ + computeds_js(old(self).indent as int, computed@),
            final(self).indent == old(self).indent,
    {
        let ghost ind = self.indent as int;
        let mut j: usize = 0;
        while j < computed.len()
            invariant
                j <= computed.len(),
                self.indent as int == ind,
                self.output@ == old(self).output@ + computeds_js(ind, computed@.take(j as int)),
            decreases computed.len() - j,
        {
            let c = &computed[j];
            let mut t = owned("const ");
            push_string(&mut t, &c.name);
            push_str(&mut t, " = computed(() => {");
            self.emit_line(t.as_str());
            self.indent = self.indent.wrapping_add(1);
            let mut r = owned("return ");
            let body = self.expr_to_string(&c.body);
            push_string(&mut r, &body);
            push_str(&mut r, ";");
            self.emit_line(r.as_str());
            self.indent = self.indent.wrapping_sub(1);
            self.emit_line("});");
            assert(computed@.take(j + 1).drop_last() =~= computed@.take(j as int));
            assert(self.output@ =~= old(self).output@ + computeds_js(ind, computed@.take(j + 1)));
            j += 1;
        }
        assert(computed@.take(computed.len() as int) =~= computed@);
    }

    fn emit_effects(&mut self, effects: &Vec<Effect>)
        ensures
            final(self).output@ == old(self).output@ + effects_js(old(self).indent as int, effects@),
            final(self).indent == old(self).indent,
    {
        let ghost ind = self.indent as int;
        let mut k: usize = 0;
        while k < effects.len()
            invariant
                k <= effects.len(),
                self.indent as int == ind,
                self.output@ == old(self).output@ + effects_js(ind, effects@.take(k as int)),
            decreases effects.len() - k,
        {
            self.emit_line("effect(() => {");
            self.generate_body(&effects[k].body);
            self.emit_line("});");
            assert(effects@.take(k + 1).drop_last() =~= effects@.take(k as int));
            assert(self.output@ =~= old(self).output@ + effects_js(ind, effects@.take(k + 1)));
            k += 1;
        }
        assert(effects@.take(effects.len() as int) =~= effects@);
    }

    fn emit_render(&mut self, body: &Vec<Stmt>)
        ensures
            final(self).output@ == old(self).output@ + render_js(body@),
            final(self).indent == old(self).indent,
    {
        if body.len() > 0 {
            match &body[0] {
                Stmt::Return(expr) => self.generate_expr(expr),
                _ => {}
            }
        }
        assert(self.output@ =~= old(self).output@ + render_js(body@));
    }

    #[verifier::rlimit(60)]
    fn generate_function(&mut self, function: &Function)
        ensures
            final(self).output@ == old(self).output@ + function_js(old(self).indent as int, *function),
            final(self).indent == old(self).indent,
    {
        let mut head = owned("export function ");
        push_string(&mut head, &function.name);
        push_str(&mut head, "(");
        self.emit_line(head.as_str());
        let mut names: Vec<String> = Vec::new();
        let mut i: usize = 0;
        while i < function.params.len()
            invariant
                i <= function.params.len(),
                views(names@) == param_names(function.params@).take(i as int),
            decreases function.params.len() - i,
        {
            let ghost n0 = names@;
            names.push(function.params[i].name.clone());
            assert(views(names@) =~= views(n0).push(function.params@[i as int].name@));
            assert(param_names(function.params@).take(i + 1) =~= param_names(function.params@).take(i as int).push(
                function.params@[i as int].name@,
            ));
            i += 1;
        }
        assert(param_names(function.params@).take(function.params.len() as int) =~= param_names(function.params@));
        let joined = crate::text::join_strings(&names, ", ");
        let mut l = owned("  ");
        push_string(&mut l, &joined);
        self.emit_line(l.as_str());
        self.emit_line(") {");
        self.indent = self.indent.wrapping_add(1);
        self.generate_stmts(&function.body);
        self.indent = self.indent.wrapping_sub(1);
        self.emit_line("}");
        self.emit_line("");
        assert(self.output@ =~= old(self).output@ + function_js(old(self).indent as int, *function));
    }

    #[verifier::loop_isolation(false)]
    fn generate_stmts(&mut self, stmts: &Vec<Stmt>)
        ensures
            final(self).output@ == old(self).output@ + stmts_js(old(self).indent as int, stmts@),
            final(self).indent == old(self).indent,
        decreases stmts, 0nat,
    {
        let mut i: usize = 0;
        while i < stmts.len()
            invariant
                i <= stmts.len(),
                self.indent == old(self).indent,
                self.output@ == old(self).output@ + stmts_js(self.indent as int, stmts@.take(i as int)),
            decreases stmts.len() - i,
        {
            proof {
                assert(decreases_to!(stmts => stmts@));
                assert(decreases_to!(stmts@ => stmts@[i as int]));
            }
            self.generate_stmt(&stmts[i]);
            assert(stmts@.take(i + 1).drop_last() =~= stmts@.take(i as int));
            assert(self.output@ =~= old(self).output@ + stmts_js(self.indent as int, stmts@.take(i + 1)));
            i += 1;
        }
        assert(stmts@.take(stmts.len() as int) =~= stmts@);
    }

    /// A nested body: one level deeper, then back.
    fn generate_body(&mut self, stmts: &Vec<Stmt>)
        ensures
            final(self).output@ == old(self).output@ + stmts_js(inc(old(self).indent as int), stmts@),
            final(self).indent == old(self).indent,
        decreases stmts, 1nat,
    {
        self.indent = self.indent.wrapping_add(1);
        self.generate_stmts(stmts);
        self.indent = self.indent.wrapping_sub(1);
    }

    #[verifier::loop_isolation(false)]
    fn generate_elifs(&mut self, elifs: &Vec<(Expr, Vec<Stmt>)>)
        ensures
            final(self).output@ == old(self).output@ + elifs_js(old(self).indent as int, elifs@),
            final(self).indent == old(self).indent,
        decreases elifs, 0nat,
    {
        let mut i: usize = 0;
        while i < elifs.len()
            invariant
                i <= elifs.len(),
                self.indent == old(self).indent,
                self.output@ == old(self).output@ + elifs_js(self.indent as int, elifs@.take(i as int)),
            decreases elifs.len() - i,
        {
            proof {
                assert(decreases_to!(elifs => elifs@));
                assert(decreases_to!(elifs@ => elifs@[i as int]));
                assert(decreases_to!(elifs@[i as int] => elifs@[i as int].1));
            }
            let mut t = owned(" else if (");
            let c = self.expr_to_string(&elifs[i].0);
            push_string(&mut t, &c);
            push_str(&mut t, ") {");
            self.emit(t.as_str());
            self.emit_line("");
            self.generate_body(&elifs[i].1);
            self.emit_line("}");
            assert(elifs@.take(i + 1).drop_last() =~= elifs@.take(i as int));
            assert(self.output@ =~= old(self).output@ + elifs_js(self.indent as int, elifs@.take(i + 1)));
            i += 1;
        }
        assert(elifs@.take(elifs.len() as int) =~= elifs@);
    }

    #[verifier::rlimit(50)]
    fn generate_stmt(&mut self, stmt: &Stmt)
        ensures
            final(self).output@ == old(self).output@ + stmt_js(old(self).indent as int, *stmt),
            final(self).indent == old(self).indent,
        decreases stmt, 0nat,
    {
        let ghost ind = self.indent as int;
        match stmt {
            Stmt::Expr(expr) => {
                let e = self.expr_to_string(expr);
                self.emit(e.as_str());
                self.emit_line(";");
                assert(self.output@ =~= old(self).output@ + stmt_js(ind, *stmt));
            }
            Stmt::Return(expr) => {
                let mut t = owned("return ");
                let e = self.expr_to_string(expr);
                push_string(&mut t, &e);
                self.emit(t.as_str());
                self.emit_line(";");
                assert(self.output@ =~= old(self).output@ + stmt_js(ind, *stmt));
            }
            Stmt::Assign(assign) => {
                let mut t = assign.target.clone();
                push_str(&mut t, " = ");
                let e = self.expr_to_string(&assign.value);
                push_string(&mut t, &e);
                self.emit(t.as_str());
                self.emit_line(";");
                assert(self.output@ =~= old(self).output@ + stmt_js(ind, *stmt));
            }
            Stmt::Var(var) => {
                let mut t = if var.is_const { owned("const") } else { owned("let") };
                push_str(&mut t, " ");
                push_string(&mut t, &var.name);
                push_str(&mut t, " = ");
                let e = self.expr_to_string(&var.value);
                push_string(&mut t, &e);
                self.emit(t.as_str());
                self.emit_line(";");
                assert(self.output@ =~= old(self).output@ + stmt_js(ind, *stmt));
            }
            Stmt::If(if_stmt) => {
                let mut t = owned("if (");
                let c = self.expr_to_string(&if_stmt.cond);
                push_string(&mut t, &c);
                push_str(&mut t, ") {");
                self.emit(t.as_str());
                self.emit_line("");
                self.generate_body(&if_stmt.body);
                self.emit_line("}");
                self.generate_elifs(&if_stmt.else_if);
                match &if_stmt.else_body {
                    Some(else_body) => {
                        self.emit_line(" else {");
                        self.generate_body(else_body);
                        self.emit_line("}");
                    }
                    None => {}
                }
                assert(self.output@ =~= old(self).output@ + stmt_js(ind, *stmt));
            }
            Stmt::For(for_stmt) => {
                let mut t = owned("for (const ");
                push_string(&mut t, &for_stmt.item);
                push_str(&mut t, " of ");
                let e = self.expr_to_string(&for_stmt.iter);
                push_string(&mut t, &e);
                push_str(&mut t, ") {");
                self.emit(t.as_str());
                self.emit_line("");
                self.generate_body(&for_stmt.body);
                self.emit_line("}");
                assert(self.output@ =~= old(self).output@ + stmt_js(ind, *stmt));
            }
            Stmt::While(while_stmt) => {
                let mut t = owned("while (");
                let c = self.expr_to_string(&while_stmt.cond);
                push_string(&mut t, &c);
                push_str(&mut t, ") {");
                self.emit(t.as_str());
                self.emit_line("");
                self.generate_body(&while_stmt.body);
                self.emit_line("}");
                assert(self.output@ =~= old(self).output@ + stmt_js(ind, *stmt));
            }
            Stmt::Block(block) => {
                self.emit_line("{");
                self.generate_body(block);
                self.emit_line("}");
                assert(self.output@ =~= old(self).output@ + stmt_js(ind, *stmt));
            }
        }
    }

    fn generate_expr(&mut self, expr: &Expr)
        ensures
            final(self).output@ == old(self).output@ + expr_js(*expr),
            final(self).indent == old(self).indent,
    {
        let e = self.expr_to_string(expr);
        self.emit(e.as_str());
    }

    /// The JavaScript text of `expr`.
    pub fn expr_to_string(&self, expr: &Expr) -> (s: String)
        ensures
            s@ == expr_js(*expr),
        decreases expr, 0nat,
    {
        match expr {
            Expr::Literal(lit) => lit.raw.clone(),
            Expr::Ident(ident) => ident.name.clone(),
            Expr::Call(call) => {
                let mut s = self.expr_to_string(&call.callee);
                push_str(&mut s, "(");
                self.write_exprs(&call.args, &mut s);
                push_str(&mut s, ")");
                s
            }
            Expr::Binary(binary) => {
                let left = self.expr_to_string(&binary.left);
                let right = self.expr_to_string(&binary.right);
                let mut s = owned("(");
                push_string(&mut s, &left);
                push_str(&mut s, " ");
                push_str(&mut s, binary_op_to_string(binary.op));
                push_str(&mut s, " ");
                push_string(&mut s, &right);
                push_str(&mut s, ")");
                assert(s@ =~= expr_js(*expr));
                s
            }
            Expr::Unary(unary) => {
                let mut s = owned(unary_op_to_string(unary.op));
                let e = self.expr_to_string(&unary.expr);
                push_string(&mut s, &e);
                s
            }
            Expr::Member(member) => {
                let mut s = self.expr_to_string(&member.obj);
                if member.computed {
                    push_str(&mut s, "[");
                    push_string(&mut s, &member.prop);
                    push_str(&mut s, "]");
                } else {
                    push_str(&mut s, ".");
                    push_string(&mut s, &member.prop);
                }
                s
            }
            Expr::Object(object) => {
                let mut s = owned("{ ");
                self.write_props(&object.props, &mut s);
                push_str(&mut s, " }");
                s
            }
            Expr::Array(array) => {
                let mut s = owned("[");
                self.write_exprs(&array.elements, &mut s);
                push_str(&mut s, "]");
                s
            }
            Expr::Lambda(lambda) => {
                let mut s = owned("(");
                let params = crate::text::join_strings(&lambda.params, ", ");
                push_string(&mut s, &params);
                push_str(&mut s, ") => ");
                let body = self.expr_to_string(&lambda.body);
                push_string(&mut s, &body);
                assert(s@ =~= expr_js(*expr));
                s
            }
            Expr::Ternary(cond, then_expr, else_expr) => {
                let mut s = self.expr_to_string(cond);
                push_str(&mut s, " ? ");
                let t = self.expr_to_string(then_expr);
                push_string(&mut s, &t);
                push_str(&mut s, " : ");
                let f = self.expr_to_string(else_expr);
                push_string(&mut s, &f);
                assert(s@ =~= expr_js(*expr));
                s
            }
            Expr::Template(template) => {
                let mut s = owned("`");
                self.write_template(&template.expressions, &template.quasis, &mut s);
                push_str(&mut s, "`");
                s
            }
            Expr::Await(await_expr) => {
                let mut s = owned("await ");
                let e = self.expr_to_string(&await_expr.expr);
                push_string(&mut s, &e);
                s
            }
            Expr::Spread(spread) => {
                let mut s = owned("...");
                let e = self.expr_to_string(&spread.expr);
                push_string(&mut s, &e);
                s
            }
        }
    }

    #[verifier::loop_isolation(false)]
    fn write_exprs(&self, v: &Vec<Expr>, out: &mut String)
        ensures
            final(out)@ == old(out)@ + exprs_js(v@),
        decreases v, 0nat,
    {
        let mut i: usize = 0;
        while i < v.len()
            invariant
                i <= v.len(),
                out@ == old(out)@ + exprs_js(v@.take(i as int)),
            decreases v.len() - i,
        {
            proof {
                assert(decreases_to!(v => v@));
                assert(decreases_to!(v@ => v@[i as int]));
            }
            if i > 0 {
                push_str(out, ", ");
            }
            let e = self.expr_to_string(&v[i]);
            push_string(out, &e);
            proof {
                let t = v@.take(i + 1);
                assert(t.drop_last() =~= v@.take(i as int));
                assert(out@ =~= old(out)@ + exprs_js(t));
            }
            i += 1;
        }
        assert(v@.take(v.len() as int) =~= v@);
    }

    #[verifier::loop_isolation(false)]
    fn write_props(&self, v: &Vec<ObjectProp>, out: &mut String)
        ensures
            final(out)@ == old(out)@ + props_js(v@),
        decreases v, 0nat,
    {
        let mut i: usize = 0;
        while i < v.len()
            invariant
                i <= v.len(),
                out@ == old(out)@ + props_js(v@.take(i as int)),
            decreases v.len() - i,
        {
            proof {
                assert(decreases_to!(v => v@));
                assert(decreases_to!(v@ => v@[i as int]));
                assert(decreases_to!(v@[i as int] => v@[i as int].value));
            }
            if i > 0 {
                push_str(out, ", ");
            }
            push_string(out, &v[i].key);
            push_str(out, ": ");
            let e = self.expr_to_string(&v[i].value);
            push_string(out, &e);
            proof {
                let t = v@.take(i + 1);
                assert(t.drop_last() =~= v@.take(i as int));
                assert(out@ =~= old(out)@ + props_js(t));
            }
            i += 1;
        }
        assert(v@.take(v.len() as int) =~= v@);
    }

    #[verifier::loop_isolation(false)]
    fn write_template(&self, es: &Vec<Expr>, q: &Vec<TemplateElement>, out: &mut String)
        ensures
            final(out)@ == old(out)@ + tmpl_js(es@, q@),
        decreases es, q@.len(),
    {
        let mut i: usize = 0;
        while i < q.len()
            invariant
                i <= q.len(),
                out@ == old(out)@ + tmpl_js(es@, q@.take(i as int)),
            decreases q.len() - i,
        {
            push_string(out, &q[i].value);
            if i < es.len() {
                proof {
                    assert(decreases_to!(es => es@));
                    assert(decreases_to!(es@ => es@[i as int]));
                }
                push_str(out, "${");
                let e = self.expr_to_string(&es[i]);
                push_string(out, &e);
                push_str(out, "}");
            }
            proof {
                let t = q@.take(i + 1);
                assert(t.drop_last() =~= q@.take(i as int));
                assert(out@ =~= old(out)@ + tmpl_js(es@, t));
            }
            i += 1;
        }
        assert(q@.take(q.len() as int) =~= q@);
    }

    fn emit(&mut self, text: &str)
        ensures
            final(self).output@ == old(self).output@ + text@,
            final(self).indent == old(self).indent,
    {
        push_str(&mut self.output, text);
    }

    fn emit_line(&mut self, text: &str)
        ensures
            final(self).output@ == old(self).output@ + line(old(self).indent as int, text@),
            final(self).indent == old(self).indent,
    {
        if !text.is_empty() {
            let mut k: usize = 0;
            while k < self.indent
                invariant
                    k <= self.indent,
                    self.indent == old(self).indent,
                    self.output@ == old(self).output@ + indent_text(k as nat),
                decreases self.indent - k,
            {
                push_char(&mut self.output, ' ');
                push_char(&mut self.output, ' ');
                k += 1;
            }
            push_str(&mut self.output, text);
        }
        push_char(&mut self.output, '\n');
        assert(self.output@ =~= old(self).output@ + line(old(self).indent as int, text@));
    }
}

} // verus!
