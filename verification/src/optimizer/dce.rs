//! Dead code elimination: components that no default export names are
//! dropped, and so is every function that has not been marked used.
use vstd::prelude::*;
use crate::ast::{Program, Component, Function, Export, Stmt, Expr, ObjectProp};
use crate::text::{views, set_add, set_insert, contains_string, str_eq};

verus! {

/// The used signals after looking through `e`: the name `signal` is
/// recorded when it is read.
pub open spec fn mark_e(sig: Seq<Seq<char>>, e: Expr) -> Seq<Seq<char>>
    decreases e,
{
    match e {
        Expr::Call(c) => marks_e(mark_e(sig, *c.callee), c.args@),
        Expr::Ident(i) => if i.name@ == "signal"@ { set_add(sig, i.name@) } else { sig },
        Expr::Binary(b) => mark_e(mark_e(sig, *b.left), *b.right),
        Expr::Unary(u) => mark_e(sig, *u.expr),
        Expr::Member(m) => mark_e(sig, *m.obj),
        Expr::Object(o) => marks_p(sig, o.props@),
        Expr::Array(a) => marks_e(sig, a.elements@),
        Expr::Lambda(l) => mark_e(sig, *l.body),
        Expr::Ternary(c, t, f) => mark_e(mark_e(mark_e(sig, *c), *t), *f),
        _ => sig,
    }
}

pub open spec fn marks_e(sig: Seq<Seq<char>>, s: Seq<Expr>) -> Seq<Seq<char>>
    decreases s,
{
    if s.len() == 0 { sig } else { mark_e(marks_e(sig, s.drop_last()), s.last()) }
}

pub open spec fn marks_p(sig: Seq<Seq<char>>, s: Seq<ObjectProp>) -> Seq<Seq<char>>
    decreases s,
{
    if s.len() == 0 { sig } else { mark_e(marks_p(sig, s.drop_last()), s.last().value) }
}

pub open spec fn mark_s(sig: Seq<Seq<char>>, s: Stmt) -> Seq<Seq<char>>
    decreases s,
{
    match s {
        Stmt::Expr(e) => mark_e(sig, e),
        Stmt::Return(e) => mark_e(sig, e),
        Stmt::Assign(a) => mark_e(sig, a.value),
        Stmt::Var(v) => mark_e(sig, v.value),
        Stmt::If(i) => {
            let s3 = marks_elif(marks_s(mark_e(sig, i.cond), i.body@), i.else_if@);
            match i.else_body {
                Some(b) => marks_s(s3, b@),
                None => s3,
            }
        },
        Stmt::For(f) => marks_s(mark_e(sig, f.iter), f.body@),
        Stmt::While(w) => marks_s(mark_e(sig, w.cond), w.body@),
        Stmt::Block(b) => marks_s(sig, b@),
    }
}

pub open spec fn marks_s(sig: Seq<Seq<char>>, s: Seq<Stmt>) -> Seq<Seq<char>>
    decreases s,
{
    if s.len() == 0 { sig } else { mark_s(marks_s(sig, s.drop_last()), s.last()) }
}

pub open spec fn marks_elif(sig: Seq<Seq<char>>, s: Seq<(Expr, Vec<Stmt>)>) -> Seq<Seq<char>>
    decreases s,
{
    if s.len() == 0 { sig } else { marks_s(mark_e(marks_elif(sig, s.drop_last()), s.last().0), s.last().1@) }
}

/// What the eliminator keeps: the used components, functions and signals.
pub struct DceState {
    pub components: Seq<Seq<char>>,
    pub functions: Seq<Seq<char>>,
    pub signals: Seq<Seq<char>>,
}

/// A default export marks its name as a used component.
pub open spec fn mark_exports(st: DceState, s: Seq<Export>) -> DceState
    decreases s.len(),
{
    if s.len() == 0 {
        st
    } else {
        let p = mark_exports(st, s.drop_last());
        if s.last().is_default {
            DceState { components: set_add(p.components, s.last().name@), ..p }
        } else {
            p
        }
    }
}

/// A used component's body is looked through.
pub open spec fn mark_components(st: DceState, s: Seq<Component>) -> DceState
    decreases s.len(),
{
    if s.len() == 0 {
        st
    } else {
        let p = mark_components(st, s.drop_last());
        if p.components.contains(s.last().name@) {
            DceState { signals: marks_s(p.signals, s.last().body@), ..p }
        } else {
            p
        }
    }
}

pub open spec fn mark_functions(st: DceState, s: Seq<Function>) -> DceState
    decreases s.len(),
{
    if s.len() == 0 {
        st
    } else {
        let p = mark_functions(st, s.drop_last());
        if p.functions.contains(s.last().name@) {
            DceState { signals: marks_s(p.signals, s.last().body@), ..p }
        } else {
            p
        }
    }
}

pub open spec fn mark_program(st: DceState, p: Program) -> DceState {
    mark_functions(mark_components(mark_exports(st, p.exports@), p.components@), p.functions@)
}

/// The components whose names are listed, in order.
pub open spec fn keep_components(s: Seq<Component>, names: Seq<Seq<char>>) -> Seq<Component>
    decreases s.len(),
{
    if s.len() == 0 {
        seq![]
    } else {
        (if names.contains(s[0].name@) { seq![s[0]] } else { seq![] }) + keep_components(s.drop_first(), names)
    }
}

/// The functions whose names are listed, in order.
pub open spec fn keep_functions(s: Seq<Function>, names: Seq<Seq<char>>) -> Seq<Function>
    decreases s.len(),
{
    if s.len() == 0 {
        seq![]
    } else {
        (if names.contains(s[0].name@) { seq![s[0]] } else { seq![] }) + keep_functions(s.drop_first(), names)
    }
}

/// How many of `s` are not listed.
pub open spec fn count_unlisted_components(s: Seq<Component>, names: Seq<Seq<char>>) -> nat
    decreases s.len(),
{
    if s.len() == 0 {
        0
    } else {
        count_unlisted_components(s.drop_last(), names) + if names.contains(s.last().name@) { 0nat } else { 1nat }
    }
}

pub open spec fn count_unlisted_functions(s: Seq<Function>, names: Seq<Seq<char>>) -> nat
    decreases s.len(),
{
    if s.len() == 0 {
        0
    } else {
        count_unlisted_functions(s.drop_last(), names) + if names.contains(s.last().name@) { 0nat } else { 1nat }
    }
}

/// Keeps the listed components of `v`, in order.
pub fn filter_components(v: Vec<Component>, names: &Vec<String>) -> (r: Vec<Component>)
    ensures
        r@ == keep_components(v@, views(names@)),
{
    let mut rest = v;
    let mut out: Vec<Component> = Vec::new();
    while rest.len() > 0
        invariant
            keep_components(v@, views(names@)) == out@ + keep_components(rest@, views(names@)),
        decreases rest.len(),
    {
        let ghost r0 = rest@;
        let c = rest.remove(0);
        assert(rest@ =~= r0.drop_first());
        if contains_string(names, c.name.as_str()) {
            let ghost o0 = out@;
            out.push(c);
            assert(out@ + keep_components(rest@, views(names@)) =~= o0 + keep_components(r0, views(names@)));
        } else {
            assert(out@ + keep_components(rest@, views(names@)) =~= out@ + keep_components(r0, views(names@)));
        }
    }
    assert(out@ + keep_components(rest@, views(names@)) =~= out@);
    out
}

/// Keeps the listed functions of `v`, in order.
pub fn filter_functions(v: Vec<Function>, names: &Vec<String>) -> (r: Vec<Function>)
    ensures
        r@ == keep_functions(v@, views(names@)),
{
    let mut rest = v;
    let mut out: Vec<Function> = Vec::new();
    while rest.len() > 0
        invariant
            keep_functions(v@, views(names@)) == out@ + keep_functions(rest@, views(names@)),
        decreases rest.len(),
    {
        let ghost r0 = rest@;
        let f = rest.remove(0);
        assert(rest@ =~= r0.drop_first());
        if contains_string(names, f.name.as_str()) {
            let ghost o0 = out@;
            out.push(f);
            assert(out@ + keep_functions(rest@, views(names@)) =~= o0 + keep_functions(r0, views(names@)));
        } else {
            assert(out@ + keep_functions(rest@, views(names@)) =~= out@ + keep_functions(r0, views(names@)));
        }
    }
    assert(out@ + keep_functions(rest@, views(names@)) =~= out@);
    out
}

pub struct DeadCodeEliminator {
    used_functions: Vec<String>,
    used_components: Vec<String>,
    used_signals: Vec<String>,
}

impl DeadCodeEliminator {
    pub closed spec fn state(&self) -> DceState {
        DceState {
            components: views(self.used_components@),
            functions: views(self.used_functions@),
            signals: views(self.used_signals@),
        }
    }

    pub fn new() -> (d: DeadCodeEliminator)
        ensures
            d.state().components.len() == 0,
            d.state().functions.len() == 0,
            d.state().signals.len() == 0,
    {
        DeadCodeEliminator { used_functions: Vec::new(), used_components: Vec::new(), used_signals: Vec::new() }
    }

    /// Marks what is used, then keeps only the used components and
    /// functions; imports, exports and styles stay.
    pub fn eliminate(&mut self, program: Program) -> (r: Program)
        ensures
            final(self).state() == mark_program(old(self).state(), program),
            r.components@ == keep_components(program.components@, final(self).state().components),
            r.functions@ == keep_functions(program.functions@, final(self).state().functions),
            r.imports == program.imports,
            r.exports == program.exports,
            r.css == program.css,
    {
        self.mark_used(&program);
        let Program { components, functions, imports, exports, css } = program;
        let components = filter_components(components, &self.used_components);
        let functions = filter_functions(functions, &self.used_functions);
        Program { components, functions, imports, exports, css }
    }

    fn mark_used(&mut self, program: &Program)
        ensures
            final(self).state() == mark_program(old(self).state(), *program),
    {
        let mut i: usize = 0;
        while i < program.exports.len()
            invariant
                i <= program.exports.len(),
                self.state() == mark_exports(old(self).state(), program.exports@.take(i as int)),
            decreases program.exports.len() - i,
        {
            if program.exports[i].is_default {
                set_insert(&mut self.used_components, program.exports[i].name.as_str());
            }
            assert(program.exports@.take(i + 1).drop_last() =~= program.exports@.take(i as int));
            i += 1;
        }
        assert(program.exports@.take(program.exports.len() as int) =~= program.exports@);
        let ghost s1 = self.state();
        let mut j: usize = 0;
        while j < program.components.len()
            invariant
                j <= program.components.len(),
                self.state() == mark_components(s1, program.components@.take(j as int)),
            decreases program.components.len() - j,
        {
            if contains_string(&self.used_components, program.components[j].name.as_str()) {
                self.mark_stmts(&program.components[j].body);
            }
            assert(program.components@.take(j + 1).drop_last() =~= program.components@.take(j as int));
            j += 1;
        }
        assert(program.components@.take(program.components.len() as int) =~= program.components@);
        let ghost s2 = self.state();
        let mut k: usize = 0;
        while k < program.functions.len()
            invariant
                k <= program.functions.len(),
                self.state() == mark_functions(s2, program.functions@.take(k as int)),
            decreases program.functions.len() - k,
        {
            if contains_string(&self.used_functions, program.functions[k].name.as_str()) {
                self.mark_stmts(&program.functions[k].body);
            }
            assert(program.functions@.take(k + 1).drop_last() =~= program.functions@.take(k as int));
            k += 1;
        }
        assert(program.functions@.take(program.functions.len() as int) =~= program.functions@);
    }

    #[verifier::loop_isolation(false)]
    fn mark_stmts(&mut self, stmts: &Vec<Stmt>)
        ensures
            final(self).state() == (DceState { signals: marks_s(old(self).state().signals, stmts@), ..old(self).state() }),
        decreases stmts,
    {
        let mut i: usize = 0;
        while i < stmts.len()
            invariant
                i <= stmts.len(),
                self.state() == (DceState { signals: marks_s(old(self).state().signals, stmts@.take(i as int)), ..old(self).state() }),
            decreases stmts.len() - i,
        {
            proof {
                assert(decreases_to!(stmts => stmts@));
                assert(decreases_to!(stmts@ => stmts@[i as int]));
            }
            self.mark_stmt(&stmts[i]);
            assert(stmts@.take(i + 1).drop_last() =~= stmts@.take(i as int));
            i += 1;
        }
        assert(stmts@.take(stmts.len() as int) =~= stmts@);
    }

    #[verifier::loop_isolation(false)]
    fn mark_elifs(&mut self, elifs: &Vec<(Expr, Vec<Stmt>)>)
        ensures
            final(self).state() == (DceState { signals: marks_elif(old(self).state().signals, elifs@), ..old(self).state() }),
        decreases elifs,
    {
        let mut i: usize = 0;
        while i < elifs.len()
            invariant
                i <= elifs.len(),
                self.state() == (DceState { signals: marks_elif(old(self).state().signals, elifs@.take(i as int)), ..old(self).state() }),
            decreases elifs.len() - i,
        {
            proof {
                assert(decreases_to!(elifs => elifs@));
                assert(decreases_to!(elifs@ => elifs@[i as int]));
                assert(decreases_to!(elifs@[i as int] => elifs@[i as int].0));
                assert(decreases_to!(elifs@[i as int] => elifs@[i as int].1));
            }
            self.mark_expr(&elifs[i].0);
            self.mark_stmts(&elifs[i].1);
            assert(elifs@.take(i + 1).drop_last() =~= elifs@.take(i as int));
            i += 1;
        }
        assert(elifs@.take(elifs.len() as int) =~= elifs@);
    }

    fn mark_stmt(&mut self, stmt: &Stmt)
        ensures
            final(self).state() == (DceState { signals: mark_s(old(self).state().signals, *stmt), ..old(self).state() }),
        decreases stmt,
    {
        match stmt {
            Stmt::Expr(expr) => self.mark_expr(expr),
            Stmt::Return(expr) => self.mark_expr(expr),
            Stmt::Assign(assign) => self.mark_expr(&assign.value),
            Stmt::Var(var) => self.mark_expr(&var.value),
            Stmt::If(if_stmt) => {
                self.mark_expr(&if_stmt.cond);
                self.mark_stmts(&if_stmt.body);
                self.mark_elifs(&if_stmt.else_if);
                match &if_stmt.else_body {
                    Some(b) => self.mark_stmts(b),
                    None => {}
                }
            }
            Stmt::For(for_stmt) => {
                self.mark_expr(&for_stmt.iter);
                self.mark_stmts(&for_stmt.body);
            }
            Stmt::While(while_stmt) => {
                self.mark_expr(&while_stmt.cond);
                self.mark_stmts(&while_stmt.body);
            }
            Stmt::Block(block) => self.mark_stmts(block),
        }
    }

    #[verifier::loop_isolation(false)]
    fn mark_exprs(&mut self, exprs: &Vec<Expr>)
        ensures
            final(self).state() == (DceState { signals: marks_e(old(self).state().signals, exprs@), ..old(self).state() }),
        decreases exprs,
    {
        let mut i: usize = 0;
        while i < exprs.len()
            invariant
                i <= exprs.len(),
                self.state() == (DceState { signals: marks_e(old(self).state().signals, exprs@.take(i as int)), ..old(self).state() }),
            decreases exprs.len() - i,
        {
            proof {
                assert(decreases_to!(exprs => exprs@));
                assert(decreases_to!(exprs@ => exprs@[i as int]));
            }
            self.mark_expr(&exprs[i]);
            assert(exprs@.take(i + 1).drop_last() =~= exprs@.take(i as int));
            i += 1;
        }
        assert(exprs@.take(exprs.len() as int) =~= exprs@);
    }

    #[verifier::loop_isolation(false)]
    fn mark_props(&mut self, props: &Vec<ObjectProp>)
        ensures
            final(self).state() == (DceState { signals: marks_p(old(self).state().signals, props@), ..old(self).state() }),
        decreases props,
    {
        let mut i: usize = 0;
        while i < props.len()
            invariant
                i <= props.len(),
                self.state() == (DceState { signals: marks_p(old(self).state().signals, props@.take(i as int)), ..old(self).state() }),
            decreases props.len() - i,
        {
            proof {
                assert(decreases_to!(props => props@));
                assert(decreases_to!(props@ => props@[i as int]));
                assert(decreases_to!(props@[i as int] => props@[i as int].value));
            }
            self.mark_expr(&props[i].value);
            assert(props@.take(i + 1).drop_last() =~= props@.take(i as int));
            i += 1;
        }
        assert(props@.take(props.len() as int) =~= props@);
    }

    fn mark_expr(&mut self, expr: &Expr)
        ensures
            final(self).state() == (DceState { signals: mark_e(old(self).state().signals, *expr), ..old(self).state() }),
        decreases expr,
    {
        match expr {
            Expr::Call(call) => {
                self.mark_expr(&call.callee);
                self.mark_exprs(&call.args);
            }
            Expr::Ident(ident) => {
                if str_eq(ident.name.as_str(), "signal") {
                    set_insert(&mut self.used_signals, ident.name.as_str());
                }
            }
            Expr::Binary(binary) => {
                self.mark_expr(&binary.left);
                self.mark_expr(&binary.right);
            }
            Expr::Unary(unary) => self.mark_expr(&unary.expr),
            Expr::Member(member) => self.mark_expr(&member.obj),
            Expr::Object(object) => self.mark_props(&object.props),
            Expr::Array(array) => self.mark_exprs(&array.elements),
            Expr::Lambda(lambda) => self.mark_expr(&lambda.body),
            Expr::Ternary(cond, then_expr, else_expr) => {
                self.mark_expr(cond);
                self.mark_expr(then_expr);
                self.mark_expr(else_expr);
            }
            _ => {}
        }
    }

    /// Has no effect: signals are not removed.
    pub fn remove_unused_signal(&mut self, name: &str)
        ensures
            final(self).state() == old(self).state(),
    {
        if !contains_string(&self.used_signals, name) {
        }
    }

    /// How many components and functions of `program` are not marked used.
    pub fn get_unused_count(&self, program: &Program) -> (n: usize)
        requires
            program.components.len() + program.functions.len() <= usize::MAX,
        ensures
            n == count_unlisted_components(program.components@, self.state().components)
                + count_unlisted_functions(program.functions@, self.state().functions),
    {
        let mut count: usize = 0;
        let mut i: usize = 0;
        while i < program.components.len()
            invariant
                i <= program.components.len(),
                count == count_unlisted_components(program.components@.take(i as int), self.state().components),
                count <= i,
            decreases program.components.len() - i,
        {
            assert(program.components@.take(i + 1).drop_last() =~= program.components@.take(i as int));
            if !contains_string(&self.used_components, program.components[i].name.as_str()) {
                count += 1;
            }
            i += 1;
        }
        assert(program.components@.take(program.components.len() as int) =~= program.components@);
        let ghost c1 = count;
        let mut j: usize = 0;
        while j < program.functions.len()
            invariant
                j <= program.functions.len(),
                c1 <= program.components.len(),
                program.components.len() + program.functions.len() <= usize::MAX,
                count == c1 + count_unlisted_functions(program.functions@.take(j as int), self.state().functions),
                count <= c1 + j,
            decreases program.functions.len() - j,
        {
            assert(program.functions@.take(j + 1).drop_last() =~= program.functions@.take(j as int));
            if !contains_string(&self.used_functions, program.functions[j].name.as_str()) {
                count += 1;
            }
            j += 1;
        }
        assert(program.functions@.take(program.functions.len() as int) =~= program.functions@);
        count
    }
}

} // verus!
