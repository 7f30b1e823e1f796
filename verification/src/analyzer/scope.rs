//! Scope analysis: which names each scope defines, and uses of names that
//! no enclosing scope defines.
use vstd::prelude::*;
use crate::ast::{Program, Component, Function, Import, Stmt, Expr, ObjectProp, Param, Signal, Computed};
use crate::text::{owned, push_str, push_string, str_eq, views};

verus! {

#[derive(Debug, Clone, Copy, PartialEq, Eq)]
pub enum SymbolKind {
    Component,
    Function,
    Signal,
    Effect,
    Computed,
    Variable,
    Parameter,
    Import,
}

/// A definition: its name, its kind and the scope it was made in.
#[derive(Debug)]
pub struct Symbol {
    pub name: String,
    pub kind: SymbolKind,
    pub defined_at: usize,
}

impl Symbol {
    pub open spec fn spec_view(&self) -> (Seq<char>, SymbolKind, int) {
        (self.name@, self.kind, self.defined_at as int)
    }

    pub fn copy(&self) -> (s: Symbol)
        ensures
            s.spec_view() == self.spec_view(),
    {
        Symbol { name: self.name.clone(), kind: self.kind, defined_at: self.defined_at }
    }
}

/// A scope: its name, its enclosing scope, the symbols it defines (one per
/// name) and the scopes it encloses.
#[derive(Debug)]
pub struct Scope {
    pub name: String,
    pub parent: Option<usize>,
    pub symbols: Vec<Symbol>,
    pub children: Vec<usize>,
}

/// The names a scope's symbols have.
pub open spec fn names_of(s: Seq<Symbol>) -> Seq<Seq<char>> {
    s.map_values(|x: Symbol| x.name@)
}

pub open spec fn sym_views(s: Seq<Symbol>) -> Seq<(Seq<char>, SymbolKind, int)> {
    s.map_values(|x: Symbol| x.spec_view())
}

/// What the analysis keeps: per scope, its enclosing scope and the names it
/// defines; the scopes' own names; the current scope; the errors; every
/// definition made, in order.
pub struct ScopeState {
    pub frames: Seq<(Option<int>, Seq<Seq<char>>)>,
    pub names: Seq<Seq<char>>,
    pub cur: int,
    pub errs: Seq<Seq<char>>,
    pub syms: Seq<(Seq<char>, SymbolKind, int)>,
}

/// Scopes only enclose scopes made before them.
pub open spec fn frames_wf(fr: Seq<(Option<int>, Seq<Seq<char>>)>, cur: int) -> bool {
    &&& fr.len() > 0
    &&& 0 <= cur < fr.len()
    &&& forall|i: int| 0 <= i < fr.len() ==> (#[trigger] fr[i].0 matches Some(p) ==> 0 <= p < i)
}

/// `n` is defined in scope `cur` or in a scope enclosing it.
pub open spec fn visible(fr: Seq<(Option<int>, Seq<Seq<char>>)>, cur: int, n: Seq<char>) -> bool
    decreases cur,
{
    if !(0 <= cur < fr.len()) {
        false
    } else if fr[cur].1.contains(n) {
        true
    } else {
        match fr[cur].0 {
            Some(p) => if 0 <= p < cur { visible(fr, p, n) } else { false },
            None => false,
        }
    }
}

pub open spec fn undef_msg(n: Seq<char>) -> Seq<char> {
    "Undefined variable: "@ + n
}

/// The errors for the names used in `e` that are not visible, in order.
pub open spec fn expr_undef(fr: Seq<(Option<int>, Seq<Seq<char>>)>, cur: int, e: Expr) -> Seq<Seq<char>>
    decreases e,
{
    match e {
        Expr::Literal(_) => seq![],
        Expr::Ident(i) => if visible(fr, cur, i.name@) { seq![] } else { seq![undef_msg(i.name@)] },
        Expr::Call(c) => expr_undef(fr, cur, *c.callee) + exprs_undef(fr, cur, c.args@),
        Expr::Binary(b) => expr_undef(fr, cur, *b.left) + expr_undef(fr, cur, *b.right),
        Expr::Unary(u) => expr_undef(fr, cur, *u.expr),
        Expr::Member(m) => expr_undef(fr, cur, *m.obj),
        Expr::Object(o) => props_undef(fr, cur, o.props@),
        Expr::Array(a) => exprs_undef(fr, cur, a.elements@),
        Expr::Lambda(l) => expr_undef(fr, cur, *l.body),
        Expr::Ternary(c, t, f) => expr_undef(fr, cur, *c) + expr_undef(fr, cur, *t) + expr_undef(fr, cur, *f),
        Expr::Template(t) => exprs_undef(fr, cur, t.expressions@),
        Expr::Await(a) => expr_undef(fr, cur, *a.expr),
        Expr::Spread(s) => expr_undef(fr, cur, *s.expr),
    }
}

pub open spec fn exprs_undef(fr: Seq<(Option<int>, Seq<Seq<char>>)>, cur: int, s: Seq<Expr>) -> Seq<Seq<char>>
    decreases s,
{
    if s.len() == 0 { seq![] } else { exprs_undef(fr, cur, s.drop_last()) + expr_undef(fr, cur, s.last()) }
}

pub open spec fn props_undef(fr: Seq<(Option<int>, Seq<Seq<char>>)>, cur: int, s: Seq<ObjectProp>) -> Seq<Seq<char>>
    decreases s,
{
    if s.len() == 0 { seq![] } else { props_undef(fr, cur, s.drop_last()) + expr_undef(fr, cur, s.last().value) }
}

/// Records the errors for the names `e` uses that are not visible.
pub open spec fn use_expr(st: ScopeState, e: Expr) -> ScopeState {
    ScopeState { errs: st.errs + expr_undef(st.frames, st.cur, e), ..st }
}

/// Defines `n` in the current scope.
pub open spec fn define(st: ScopeState, n: Seq<char>, k: SymbolKind) -> ScopeState {
    let f = st.frames[st.cur];
    ScopeState {
        frames: st.frames.update(st.cur, (f.0, if f.1.contains(n) { f.1 } else { f.1.push(n) })),
        syms: st.syms.push((n, k, st.cur)),
        ..st
    }
}

/// Defines each of `names`, in order.
pub open spec fn define_all(st: ScopeState, names: Seq<Seq<char>>, k: SymbolKind) -> ScopeState
    decreases names.len(),
{
    if names.len() == 0 { st } else { define(define_all(st, names.drop_last(), k), names.last(), k) }
}

/// Opens a new scope named `n` inside the current one.
pub open spec fn enter(st: ScopeState, n: Seq<char>) -> ScopeState {
    ScopeState { frames: st.frames.push((Some(st.cur), seq![])), names: st.names.push(n), cur: st.frames.len() as int, ..st }
}

/// Returns to the enclosing scope, if there is one.
pub open spec fn exit(st: ScopeState) -> ScopeState {
    match st.frames[st.cur].0 {
        Some(p) => ScopeState { cur: p, ..st },
        None => st,
    }
}

pub open spec fn stmt_sc(st: ScopeState, s: Stmt) -> ScopeState
    decreases s,
{
    match s {
        Stmt::Expr(e) => use_expr(st, e),
        Stmt::Return(e) => use_expr(st, e),
        Stmt::If(i) => {
            let s3 = elifs_sc(stmts_sc(use_expr(st, i.cond), i.body@), i.else_if@);
            match i.else_body {
                Some(b) => stmts_sc(s3, b@),
                None => s3,
            }
        },
        Stmt::For(f) => exit(stmts_sc(define(enter(use_expr(st, f.iter), "for"@), f.item@, SymbolKind::Variable), f.body@)),
        Stmt::While(w) => stmts_sc(use_expr(st, w.cond), w.body@),
        Stmt::Assign(a) => use_expr(
            if visible(st.frames, st.cur, a.target@) { st } else { define(st, a.target@, SymbolKind::Variable) },
            a.value,
        ),
        Stmt::Var(v) => use_expr(define(st, v.name@, SymbolKind::Variable), v.value),
        Stmt::Block(b) => stmts_sc(st, b@),
    }
}

pub open spec fn stmts_sc(st: ScopeState, s: Seq<Stmt>) -> ScopeState
    decreases s,
{
    if s.len() == 0 { st } else { stmt_sc(stmts_sc(st, s.drop_last()), s.last()) }
}

pub open spec fn elifs_sc(st: ScopeState, s: Seq<(Expr, Vec<Stmt>)>) -> ScopeState
    decreases s,
{
    if s.len() == 0 { st } else { stmts_sc(use_expr(elifs_sc(st, s.drop_last()), s.last().0), s.last().1@) }
}

pub open spec fn param_names(s: Seq<Param>) -> Seq<Seq<char>> {
    s.map_values(|p: Param| p.name@)
}

pub open spec fn signal_names(s: Seq<Signal>) -> Seq<Seq<char>> {
    s.map_values(|p: Signal| p.name@)
}

pub open spec fn computed_names(s: Seq<Computed>) -> Seq<Seq<char>> {
    s.map_values(|p: Computed| p.name@)
}

/// A component opens a scope, defines its name, parameters, signals and
/// computed values there, analyses its body and closes the scope.
pub open spec fn component_sc(st: ScopeState, c: Component) -> ScopeState {
    let s1 = define(enter(st, c.name@), c.name@, SymbolKind::Component);
    let s2 = define_all(s1, param_names(c.params@), SymbolKind::Parameter);
    let s3 = define_all(s2, signal_names(c.signals@), SymbolKind::Signal);
    let s4 = define_all(s3, computed_names(c.computed@), SymbolKind::Computed);
    exit(stmts_sc(s4, c.body@))
}

pub open spec fn function_sc(st: ScopeState, f: Function) -> ScopeState {
    let s1 = define(enter(st, f.name@), f.name@, SymbolKind::Function);
    let s2 = define_all(s1, param_names(f.params@), SymbolKind::Parameter);
    exit(stmts_sc(s2, f.body@))
}

pub open spec fn components_sc(st: ScopeState, s: Seq<Component>) -> ScopeState
    decreases s.len(),
{
    if s.len() == 0 { st } else { component_sc(components_sc(st, s.drop_last()), s.last()) }
}

pub open spec fn functions_sc(st: ScopeState, s: Seq<Function>) -> ScopeState
    decreases s.len(),
{
    if s.len() == 0 { st } else { function_sc(functions_sc(st, s.drop_last()), s.last()) }
}

pub open spec fn imports_sc(st: ScopeState, s: Seq<Import>) -> ScopeState
    decreases s.len(),
{
    if s.len() == 0 {
        st
    } else {
        define_all(imports_sc(st, s.drop_last()), views(s.last().names@), SymbolKind::Import)
    }
}

/// Analysing a program: its components, its functions, then its imports.
pub open spec fn program_sc(st: ScopeState, p: Program) -> ScopeState {
    imports_sc(functions_sc(components_sc(st, p.components@), p.functions@), p.imports@)
}

pub struct ScopeAnalyzer {
    scopes: Vec<Scope>,
    current_scope: usize,
    errors: Vec<String>,
    symbols: Vec<Symbol>,
}

fn copy_symbols(v: &Vec<Symbol>) -> (r: Vec<Symbol>)
    ensures
        sym_views(r@) == sym_views(v@),
        names_of(r@) == names_of(v@),
{
    let mut r: Vec<Symbol> = Vec::new();
    let mut i: usize = 0;
    while i < v.len()
        invariant
            i <= v.len(),
            r@.len() == i,
            forall|k: int| 0 <= k < i ==> (#[trigger] r@[k]).spec_view() == v@[k].spec_view(),
        decreases v.len() - i,
    {
        r.push(v[i].copy());
        i += 1;
    }
    assert(sym_views(r@) =~= sym_views(v@)) by {
        assert forall|k: int| 0 <= k < r@.len() implies sym_views(r@)[k] == sym_views(v@)[k] by {
            assert(r@[k].spec_view() == v@[k].spec_view());
        }
    }
    assert(names_of(r@) =~= names_of(v@)) by {
        assert forall|k: int| 0 <= k < r@.len() implies names_of(r@)[k] == names_of(v@)[k] by {
            assert(r@[k].spec_view() == v@[k].spec_view());
        }
    }
    r
}

/// The position of the symbol named `n`.
fn symbol_index(v: &Vec<Symbol>, n: &str) -> (r: Option<usize>)
    ensures
        match r {
            Some(j) => j < v.len() && v@[j as int].name@ == n@,
            None => !names_of(v@).contains(n@),
        },
{
    let mut i: usize = 0;
    while i < v.len()
        invariant
            i <= v.len(),
            forall|k: int| 0 <= k < i ==> v@[k].name@ != n@,
        decreases v.len() - i,
    {
        if str_eq(v[i].name.as_str(), n) {
            return Some(i);
        }
        i += 1;
    }
    assert(!names_of(v@).contains(n@)) by {
        if names_of(v@).contains(n@) {
            let k = choose|k: int| 0 <= k < names_of(v@).len() && names_of(v@)[k] == n@;
            assert(v@[k].name@ == n@);
        }
    }
    None
}

impl ScopeAnalyzer {
    pub closed spec fn frames(&self) -> Seq<(Option<int>, Seq<Seq<char>>)> {
        self.scopes@.map_values(
            |s: Scope|
                (
                    match s.parent {
                        Some(p) => Some(p as int),
                        None => None,
                    },
                    names_of(s.symbols@),
                ),
        )
    }

    /// The analysis so far.
    pub closed spec fn state(&self) -> ScopeState {
        ScopeState {
            frames: self.frames(),
            names: self.scopes@.map_values(|s: Scope| s.name@),
            cur: self.current_scope as int,
            errs: views(self.errors@),
            syms: sym_views(self.symbols@),
        }
    }

    pub open spec fn wf(&self) -> bool {
        frames_wf(self.state().frames, self.state().cur)
    }

    /// An analyzer whose one scope, the global one, defines nothing.
    pub fn new() -> (a: ScopeAnalyzer)
        ensures
            a.wf(),
            a.state().frames == seq![(None::<int>, Seq::<Seq<char>>::empty())],
            a.state().names == seq!["global"@],
            a.state().cur == 0,
            a.state().errs.len() == 0,
            a.state().syms.len() == 0,
    {
        let global_scope = Scope {
            name: owned("global"),
            parent: None,
            symbols: Vec::new(),
            children: Vec::new(),
        };
        let mut scopes: Vec<Scope> = Vec::new();
        scopes.push(global_scope);
        let a = ScopeAnalyzer { scopes, current_scope: 0, errors: Vec::new(), symbols: Vec::new() };
        assert(names_of(Seq::<Symbol>::empty()) =~= Seq::<Seq<char>>::empty());
        assert(a.frames()[0] == (None::<int>, Seq::<Seq<char>>::empty()));
        assert(a.frames() =~= seq![(None::<int>, Seq::<Seq<char>>::empty())]);
        assert(sym_views(a.symbols@) =~= Seq::<(Seq<char>, SymbolKind, int)>::empty());
        assert(views(a.errors@) =~= Seq::<Seq<char>>::empty());
        assert(a.state().names =~= seq!["global"@]);
        a
    }

    /// Analyses the program's components, functions and imports.
    pub fn analyze(&mut self, program: &Program)
        requires
            old(self).wf(),
        ensures
            final(self).wf(),
            final(self).state() == program_sc(old(self).state(), *program),
    {
        let mut i: usize = 0;
        while i < program.components.len()
            invariant
                i <= program.components.len(),
                self.wf(),
                self.state() == components_sc(old(self).state(), program.components@.take(i as int)),
            decreases program.components.len() - i,
        {
            self.analyze_component(&program.components[i]);
            assert(program.components@.take(i + 1).drop_last() =~= program.components@.take(i as int));
            i += 1;
        }
        assert(program.components@.take(program.components.len() as int) =~= program.components@);
        let ghost s1 = self.state();
        let mut j: usize = 0;
        while j < program.functions.len()
            invariant
                j <= program.functions.len(),
                self.wf(),
                self.state() == functions_sc(s1, program.functions@.take(j as int)),
            decreases program.functions.len() - j,
        {
            self.analyze_function(&program.functions[j]);
            assert(program.functions@.take(j + 1).drop_last() =~= program.functions@.take(j as int));
            j += 1;
        }
        assert(program.functions@.take(program.functions.len() as int) =~= program.functions@);
        let ghost s2 = self.state();
        let mut k: usize = 0;
        while k < program.imports.len()
            invariant
                k <= program.imports.len(),
                self.wf(),
                self.state() == imports_sc(s2, program.imports@.take(k as int)),
            decreases program.imports.len() - k,
        {
            self.define_names(&program.imports[k].names, SymbolKind::Import);
            assert(program.imports@.take(k + 1).drop_last() =~= program.imports@.take(k as int));
            k += 1;
        }
        assert(program.imports@.take(program.imports.len() as int) =~= program.imports@);
    }

    fn analyze_component(&mut self, component: &Component)
        requires
            old(self).wf(),
        ensures
            final(self).wf(),
            final(self).state() == component_sc(old(self).state(), *component),
    {
        self.enter_scope(component.name.as_str());
        self.define_symbol(component.name.as_str(), SymbolKind::Component);
        self.define_params(&component.params);
        let ghost s2 = self.state();
        let mut i: usize = 0;
        while i < component.signals.len()
            invariant
                i <= component.signals.len(),
                self.wf(),
                self.state() == define_all(s2, signal_names(component.signals@).take(i as int), SymbolKind::Signal),
            decreases component.signals.len() - i,
        {
            self.define_symbol(component.signals[i].name.as_str(), SymbolKind::Signal);
            assert(signal_names(component.signals@).take(i + 1).drop_last() =~= signal_names(component.signals@).take(i as int));
            i += 1;
        }
        assert(signal_names(component.signals@).take(component.signals.len() as int) =~= signal_names(component.signals@));
        let ghost s3 = self.state();
        let mut j: usize = 0;
        while j < component.computed.len()
            invariant
                j <= component.computed.len(),
                self.wf(),
                self.state() == define_all(s3, computed_names(component.computed@).take(j as int), SymbolKind::Computed),
            decreases component.computed.len() - j,
        {
            self.define_symbol(component.computed[j].name.as_str(), SymbolKind::Computed);
            assert(computed_names(component.computed@).take(j + 1).drop_last() =~= computed_names(component.computed@).take(j as int));
            j += 1;
        }
        assert(computed_names(component.computed@).take(component.computed.len() as int) =~= computed_names(component.computed@));
        self.analyze_stmts(&component.body);
        self.exit_scope();
    }

    fn analyze_function(&mut self, function: &Function)
        requires
            old(self).wf(),
        ensures
            final(self).wf(),
            final(self).state() == function_sc(old(self).state(), *function),
    {
        self.enter_scope(function.name.as_str());
        self.define_symbol(function.name.as_str(), SymbolKind::Function);
        self.define_params(&function.params);
        self.analyze_stmts(&function.body);
        self.exit_scope();
    }

    fn define_params(&mut self, params: &Vec<Param>)
        requires
            old(self).wf(),
        ensures
            final(self).wf(),
            final(self).state() == define_all(old(self).state(), param_names(params@), SymbolKind::Parameter),
    {
        let mut i: usize = 0;
        while i < params.len()
            invariant
                i <= params.len(),
                self.wf(),
                self.state() == define_all(old(self).state(), param_names(params@).take(i as int), SymbolKind::Parameter),
            decreases params.len() - i,
        {
            self.define_symbol(params[i].name.as_str(), SymbolKind::Parameter);
            assert(param_names(params@).take(i + 1).drop_last() =~= param_names(params@).take(i as int));
            i += 1;
        }
        assert(param_names(params@).take(params.len() as int) =~= param_names(params@));
    }

    fn define_names(&mut self, names: &Vec<String>, kind: SymbolKind)
        requires
            old(self).wf(),
        ensures
            final(self).wf(),
            final(self).state() == define_all(old(self).state(), views(names@), kind),
    {
        let mut i: usize = 0;
        while i < names.len()
            invariant
                i <= names.len(),
                self.wf(),
                self.state() == define_all(old(self).state(), views(names@).take(i as int), kind),
            decreases names.len() - i,
        {
            self.define_symbol(names[i].as_str(), kind);
            assert(views(names@).take(i + 1).drop_last() =~= views(names@).take(i as int));
            i += 1;
        }
        assert(views(names@).take(names.len() as int) =~= views(names@));
    }
}


impl ScopeAnalyzer {
    fn push_error(&mut self, m: String)
        ensures
            final(self).state() == (ScopeState { errs: old(self).state().errs.push(m@), ..old(self).state() }),
    {
        let ghost e0 = self.errors@;
        self.errors.push(m);
        assert(views(self.errors@) =~= views(e0).push(m@));
    }

    #[verifier::loop_isolation(false)]
    fn analyze_stmts(&mut self, stmts: &Vec<Stmt>)
        requires
            old(self).wf(),
        ensures
            final(self).wf(),
            final(self).state() == stmts_sc(old(self).state(), stmts@),
        decreases stmts,
    {
        let mut i: usize = 0;
        while i < stmts.len()
            invariant
                i <= stmts.len(),
                self.wf(),
                self.state() == stmts_sc(old(self).state(), stmts@.take(i as int)),
            decreases stmts.len() - i,
        {
            proof {
                assert(decreases_to!(stmts => stmts@));
                assert(decreases_to!(stmts@ => stmts@[i as int]));
            }
            self.analyze_stmt(&stmts[i]);
            assert(stmts@.take(i + 1).drop_last() =~= stmts@.take(i as int));
            i += 1;
        }
        assert(stmts@.take(stmts.len() as int) =~= stmts@);
    }

    #[verifier::loop_isolation(false)]
    fn analyze_elifs(&mut self, elifs: &Vec<(Expr, Vec<Stmt>)>)
        requires
            old(self).wf(),
        ensures
            final(self).wf(),
            final(self).state() == elifs_sc(old(self).state(), elifs@),
        decreases elifs,
    {
        let mut i: usize = 0;
        while i < elifs.len()
            invariant
                i <= elifs.len(),
                self.wf(),
                self.state() == elifs_sc(old(self).state(), elifs@.take(i as int)),
            decreases elifs.len() - i,
        {
            proof {
                assert(decreases_to!(elifs => elifs@));
                assert(decreases_to!(elifs@ => elifs@[i as int]));
                assert(decreases_to!(elifs@[i as int] => elifs@[i as int].0));
                assert(decreases_to!(elifs@[i as int] => elifs@[i as int].1));
            }
            self.analyze_expr(&elifs[i].0);
            self.analyze_stmts(&elifs[i].1);
            assert(elifs@.take(i + 1).drop_last() =~= elifs@.take(i as int));
            i += 1;
        }
        assert(elifs@.take(elifs.len() as int) =~= elifs@);
    }

    fn analyze_stmt(&mut self, stmt: &Stmt)
        requires
            old(self).wf(),
        ensures
            final(self).wf(),
            final(self).state() == stmt_sc(old(self).state(), *stmt),
        decreases stmt,
    {
        match stmt {
            Stmt::Expr(expr) => self.analyze_expr(expr),
            Stmt::Return(expr) => self.analyze_expr(expr),
            Stmt::If(if_stmt) => {
                self.analyze_expr(&if_stmt.cond);
                self.analyze_stmts(&if_stmt.body);
                self.analyze_elifs(&if_stmt.else_if);
                match &if_stmt.else_body {
                    Some(else_body) => self.analyze_stmts(else_body),
                    None => {}
                }
            }
            Stmt::For(for_stmt) => {
                self.analyze_expr(&for_stmt.iter);
                self.enter_scope("for");
                self.define_symbol(for_stmt.item.as_str(), SymbolKind::Variable);
                self.analyze_stmts(&for_stmt.body);
                self.exit_scope();
            }
            Stmt::While(while_stmt) => {
                self.analyze_expr(&while_stmt.cond);
                self.analyze_stmts(&while_stmt.body);
            }
            Stmt::Assign(assign) => {
                if !self.symbol_exists(assign.target.as_str()) {
                    self.define_symbol(assign.target.as_str(), SymbolKind::Variable);
                }
                self.analyze_expr(&assign.value);
            }
            Stmt::Var(var) => {
                self.define_symbol(var.name.as_str(), SymbolKind::Variable);
                self.analyze_expr(&var.value);
            }
            Stmt::Block(stmts) => self.analyze_stmts(stmts),
        }
    }

    #[verifier::loop_isolation(false)]
    fn analyze_exprs(&mut self, exprs: &Vec<Expr>)
        requires
            old(self).wf(),
        ensures
            final(self).wf(),
            final(self).state() == (ScopeState {
                errs: old(self).state().errs + exprs_undef(old(self).state().frames, old(self).state().cur, exprs@),
                ..old(self).state()
            }),
        decreases exprs,
    {
        let ghost fr = self.state().frames;
        let ghost cur = self.state().cur;
        let mut i: usize = 0;
        while i < exprs.len()
            invariant
                i <= exprs.len(),
                self.wf(),
                self.state() == (ScopeState {
                    errs: old(self).state().errs + exprs_undef(fr, cur, exprs@.take(i as int)),
                    ..old(self).state()
                }),
            decreases exprs.len() - i,
        {
            proof {
                assert(decreases_to!(exprs => exprs@));
                assert(decreases_to!(exprs@ => exprs@[i as int]));
            }
            self.analyze_expr(&exprs[i]);
            assert(exprs@.take(i + 1).drop_last() =~= exprs@.take(i as int));
            assert(old(self).state().errs + exprs_undef(fr, cur, exprs@.take(i + 1)) =~= old(self).state().errs
                + exprs_undef(fr, cur, exprs@.take(i as int)) + expr_undef(fr, cur, exprs@[i as int]));
            i += 1;
        }
        assert(exprs@.take(exprs.len() as int) =~= exprs@);
    }

    #[verifier::loop_isolation(false)]
    fn analyze_props(&mut self, props: &Vec<ObjectProp>)
        requires
            old(self).wf(),
        ensures
            final(self).wf(),
            final(self).state() == (ScopeState {
                errs: old(self).state().errs + props_undef(old(self).state().frames, old(self).state().cur, props@),
                ..old(self).state()
            }),
        decreases props,
    {
        let ghost fr = self.state().frames;
        let ghost cur = self.state().cur;
        let mut i: usize = 0;
        while i < props.len()
            invariant
                i <= props.len(),
                self.wf(),
                self.state() == (ScopeState {
                    errs: old(self).state().errs + props_undef(fr, cur, props@.take(i as int)),
                    ..old(self).state()
                }),
            decreases props.len() - i,
        {
            proof {
                assert(decreases_to!(props => props@));
                assert(decreases_to!(props@ => props@[i as int]));
                assert(decreases_to!(props@[i as int] => props@[i as int].value));
            }
            self.analyze_expr(&props[i].value);
            assert(props@.take(i + 1).drop_last() =~= props@.take(i as int));
            assert(old(self).state().errs + props_undef(fr, cur, props@.take(i + 1)) =~= old(self).state().errs
                + props_undef(fr, cur, props@.take(i as int)) + expr_undef(fr, cur, props@[i as int].value));
            i += 1;
        }
        assert(props@.take(props.len() as int) =~= props@);
    }

    fn analyze_expr(&mut self, expr: &Expr)
        requires
            old(self).wf(),
        ensures
            final(self).wf(),
            final(self).state() == use_expr(old(self).state(), *expr),
        decreases expr,
    {
        let ghost st = self.state();
        match expr {
            Expr::Literal(_) => {
                assert(st.errs + seq![] =~= st.errs);
            }
            Expr::Ident(ident) => {
                if !self.symbol_exists(ident.name.as_str()) {
                    let mut m = owned("Undefined variable: ");
                    push_string(&mut m, &ident.name);
                    self.push_error(m);
                    assert(self.state().errs =~= st.errs + expr_undef(st.frames, st.cur, *expr));
                } else {
                    assert(st.errs + seq![] =~= st.errs);
                }
            }
            Expr::Call(call) => {
                self.analyze_expr(&call.callee);
                self.analyze_exprs(&call.args);
                assert(self.state().errs =~= st.errs + expr_undef(st.frames, st.cur, *expr));
            }
            Expr::Binary(binary) => {
                self.analyze_expr(&binary.left);
                self.analyze_expr(&binary.right);
                assert(self.state().errs =~= st.errs + expr_undef(st.frames, st.cur, *expr));
            }
            Expr::Unary(unary) => self.analyze_expr(&unary.expr),
            Expr::Member(member) => self.analyze_expr(&member.obj),
            Expr::Object(object) => self.analyze_props(&object.props),
            Expr::Array(array) => self.analyze_exprs(&array.elements),
            Expr::Lambda(lambda) => self.analyze_expr(&lambda.body),
            Expr::Ternary(cond, then_expr, else_expr) => {
                self.analyze_expr(cond);
                self.analyze_expr(then_expr);
                self.analyze_expr(else_expr);
                assert(self.state().errs =~= st.errs + expr_undef(st.frames, st.cur, *expr));
            }
            Expr::Template(template) => self.analyze_exprs(&template.expressions),
            Expr::Await(await_expr) => self.analyze_expr(&await_expr.expr),
            Expr::Spread(spread) => self.analyze_expr(&spread.expr),
        }
    }

    fn enter_scope(&mut self, name: &str)
        requires
            old(self).wf(),
        ensures
            final(self).wf(),
            final(self).state() == enter(old(self).state(), name@),
    {
        let scope_id = self.scopes.len();
        let cur = self.current_scope;
        let parent = &self.scopes[cur];
        let mut children = parent.children.clone();
        children.push(scope_id);
        let updated = Scope {
            name: parent.name.clone(),
            parent: parent.parent,
            symbols: copy_symbols(&parent.symbols),
            children,
        };
        let ghost f0 = self.frames();
        let ghost sc0 = self.scopes@;
        self.scopes.set(cur, updated);
        self.scopes.push(Scope { name: owned(name), parent: Some(cur), symbols: Vec::new(), children: Vec::new() });
        self.current_scope = scope_id;
        proof {
            assert(names_of(Seq::<Symbol>::empty()) =~= Seq::<Seq<char>>::empty());
            let target = f0.push((Some(cur as int), Seq::<Seq<char>>::empty()));
            assert forall|k: int| 0 <= k < self.scopes@.len() implies #[trigger] self.frames()[k] == target[k] by {
                if k < sc0.len() {
                    assert(f0[k] == target[k]);
                }
            }
            assert(self.frames() =~= target);
            assert(self.state().names =~= old(self).state().names.push(name@));
        }
    }

    fn exit_scope(&mut self)
        requires
            old(self).wf(),
        ensures
            final(self).wf(),
            final(self).state() == exit(old(self).state()),
    {
        match self.scopes[self.current_scope].parent {
            Some(parent) => {
                assert(self.frames()[self.current_scope as int].0 == Some(parent as int));
                self.current_scope = parent;
            }
            None => {}
        }
    }

    fn define_symbol(&mut self, name: &str, kind: SymbolKind)
        requires
            old(self).wf(),
        ensures
            final(self).wf(),
            final(self).state() == define(old(self).state(), name@, kind),
    {
        let cur = self.current_scope;
        let symbol = Symbol { name: owned(name), kind, defined_at: cur };
        let ghost s0 = self.symbols@;
        self.symbols.push(symbol.copy());
        assert(sym_views(self.symbols@) =~= sym_views(s0).push((name@, kind, cur as int)));
        let scope = &self.scopes[cur];
        let mut syms = copy_symbols(&scope.symbols);
        let ghost n0 = names_of(syms@);
        match symbol_index(&syms, name) {
            Some(j) => {
                syms.set(j, symbol);
                assert(names_of(syms@) =~= n0);
                assert(n0.contains(name@)) by {
                    assert(n0[j as int] == name@);
                }
            }
            None => {
                syms.push(symbol);
                assert(names_of(syms@) =~= n0.push(name@));
            }
        }
        let updated = Scope {
            name: scope.name.clone(),
            parent: scope.parent,
            symbols: syms,
            children: scope.children.clone(),
        };
        let ghost f0 = self.frames();
        let ghost sc0 = self.scopes@;
        self.scopes.set(cur, updated);
        proof {
            let target = define(old(self).state(), name@, kind).frames;
            assert forall|k: int| 0 <= k < self.scopes@.len() implies #[trigger] self.frames()[k] == target[k] by {
                assert(f0[k] == old(self).state().frames[k]);
            }
            assert(self.frames() =~= target);
            assert(self.state().names =~= old(self).state().names);
        }
    }

    /// Whether `name` is defined in the current scope or one enclosing it.
    fn symbol_exists(&self, name: &str) -> (b: bool)
        requires
            self.wf(),
        ensures
            b == visible(self.state().frames, self.state().cur, name@),
    {
        let ghost fr = self.state().frames;
        let mut id: usize = self.current_scope;
        loop
            invariant
                self.wf(),
                0 <= id < fr.len(),
                fr == self.state().frames,
                visible(fr, self.state().cur, name@) == visible(fr, id as int, name@),
            decreases id,
        {
            let found = symbol_index(&self.scopes[id].symbols, name);
            assert(fr[id as int].1 == names_of(self.scopes@[id as int].symbols@));
            match found {
                Some(j) => {
                    assert(fr[id as int].1[j as int] == name@);
                    return true;
                }
                None => {}
            }
            match self.scopes[id].parent {
                Some(p) => {
                    assert(fr[id as int].0 == Some(p as int));
                    id = p;
                }
                None => {
                    return false;
                }
            }
        }
    }

    pub fn has_errors(&self) -> (b: bool)
        ensures
            b == (self.state().errs.len() > 0),
    {
        self.errors.len() > 0
    }

    pub fn get_errors(&self) -> (v: Vec<String>)
        ensures
            views(v@) == self.state().errs,
    {
        let v = self.errors.clone();
        assert(views(v@) =~= self.state().errs);
        v
    }

    /// Whether no error was found.
    pub fn validate(&self, _program: &Program) -> (b: bool)
        ensures
            b == (self.state().errs.len() == 0),
    {
        !self.has_errors()
    }

    /// The name of scope `id`; empty when there is no such scope.
    pub fn scope_name(&self, id: usize) -> (r: String)
        ensures
            id < self.state().names.len() ==> r@ == self.state().names[id as int],
            id >= self.state().names.len() ==> r@.len() == 0,
    {
        if id < self.scopes.len() {
            self.scopes[id].name.clone()
        } else {
            String::new()
        }
    }

    /// Every definition made, in order.
    pub fn get_symbols(&self) -> (v: Vec<Symbol>)
        ensures
            sym_views(v@) == self.state().syms,
    {
        copy_symbols(&self.symbols)
    }
}

} // verus!
