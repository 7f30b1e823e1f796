//! Tree shaking: keep only the components and functions reachable from
//! the exports (or from the first component when nothing is exported).
use vstd::prelude::*;
use crate::ast::{Program, Component, Function, Export, Stmt, Expr, ObjectProp};
use crate::text::{views, set_add, set_insert, contains_string, str_eq, owned, chars_of, is_uppercase, uppercase};
use super::dce::{keep_components, keep_functions, filter_components, filter_functions, count_unlisted_components,
    count_unlisted_functions};

verus! {

/// The names an expression depends on: each called name, and each name
/// read that starts with an uppercase letter (a called name that does is
/// listed twice).
pub open spec fn e_deps(e: Expr) -> Seq<Seq<char>>
    decreases e,
{
    match e {
        Expr::Call(c) => (match *c.callee {
            Expr::Ident(i) => seq![i.name@],
            _ => seq![],
        }) + e_deps(*c.callee) + es_deps(c.args@),
        Expr::Ident(i) => if i.name@.len() > 0 && uppercase(i.name@[0]) { seq![i.name@] } else { seq![] },
        Expr::Binary(b) => e_deps(*b.left) + e_deps(*b.right),
        Expr::Unary(u) => e_deps(*u.expr),
        Expr::Member(m) => e_deps(*m.obj),
        Expr::Object(o) => ps_deps(o.props@),
        Expr::Array(a) => es_deps(a.elements@),
        Expr::Lambda(l) => e_deps(*l.body),
        Expr::Ternary(c, t, f) => e_deps(*c) + e_deps(*t) + e_deps(*f),
        _ => seq![],
    }
}

pub open spec fn es_deps(s: Seq<Expr>) -> Seq<Seq<char>>
    decreases s,
{
    if s.len() == 0 { seq![] } else { es_deps(s.drop_last()) + e_deps(s.last()) }
}

pub open spec fn ps_deps(s: Seq<ObjectProp>) -> Seq<Seq<char>>
    decreases s,
{
    if s.len() == 0 { seq![] } else { ps_deps(s.drop_last()) + e_deps(s.last().value) }
}

/// The names a statement depends on; the conditions of `else if`
/// branches are not looked into, their bodies are.
pub open spec fn s_deps(s: Stmt) -> Seq<Seq<char>>
    decreases s,
{
    match s {
        Stmt::Expr(e) => e_deps(e),
        Stmt::Return(e) => e_deps(e),
        Stmt::Assign(a) => e_deps(a.value),
        Stmt::Var(v) => e_deps(v.value),
        Stmt::If(i) => e_deps(i.cond) + ss_deps(i.body@) + elif_deps(i.else_if@) + match i.else_body {
            Some(b) => ss_deps(b@),
            None => seq![],
        },
        Stmt::For(f) => e_deps(f.iter) + ss_deps(f.body@),
        Stmt::While(w) => e_deps(w.cond) + ss_deps(w.body@),
        Stmt::Block(b) => ss_deps(b@),
    }
}

pub open spec fn ss_deps(s: Seq<Stmt>) -> Seq<Seq<char>>
    decreases s,
{
    if s.len() == 0 { seq![] } else { ss_deps(s.drop_last()) + s_deps(s.last()) }
}

pub open spec fn elif_deps(s: Seq<(Expr, Vec<Stmt>)>) -> Seq<Seq<char>>
    decreases s,
{
    if s.len() == 0 { seq![] } else { elif_deps(s.drop_last()) + ss_deps(s.last().1@) }
}

// ---------------------------------------------------------------------------
// The dependency graph and reachability
// ---------------------------------------------------------------------------

/// The last position of `n` among the graph's names.
pub open spec fn g_pos(g: Seq<(Seq<char>, Seq<Seq<char>>)>, n: Seq<char>) -> Option<int>
    decreases g.len(),
{
    if g.len() == 0 {
        None
    } else if g.last().0 == n {
        Some(g.len() - 1)
    } else {
        g_pos(g.drop_last(), n)
    }
}

/// What `n` depends on; nothing when it is not in the graph.
pub open spec fn deps_of(g: Seq<(Seq<char>, Seq<Seq<char>>)>, n: Seq<char>) -> Seq<Seq<char>> {
    match g_pos(g, n) {
        Some(i) => g[i].1,
        None => seq![],
    }
}

/// Records that `n` depends on `d`, in place of what was recorded for it.
pub open spec fn g_insert(g: Seq<(Seq<char>, Seq<Seq<char>>)>, n: Seq<char>, d: Seq<Seq<char>>) -> Seq<(Seq<char>, Seq<Seq<char>>)> {
    match g_pos(g, n) {
        Some(i) => g.update(i, (n, d)),
        None => g.push((n, d)),
    }
}

/// No name occurs twice in the graph.
pub open spec fn names_distinct(g: Seq<(Seq<char>, Seq<Seq<char>>)>) -> bool {
    forall|i: int, j: int| 0 <= i < j < g.len() ==> (#[trigger] g[i]).0 != (#[trigger] g[j]).0
}

proof fn lemma_g_pos(g: Seq<(Seq<char>, Seq<Seq<char>>)>, n: Seq<char>)
    ensures
        match g_pos(g, n) {
            Some(i) => 0 <= i < g.len() && g[i].0 == n,
            None => forall|j: int| 0 <= j < g.len() ==> (#[trigger] g[j]).0 != n,
        },
    decreases g.len(),
{
    if g.len() > 0 && g.last().0 != n {
        lemma_g_pos(g.drop_last(), n);
        assert(forall|j: int| 0 <= j < g.len() - 1 ==> g.drop_last()[j] == g[j]);
    }
}

proof fn lemma_insert_distinct(g: Seq<(Seq<char>, Seq<Seq<char>>)>, n: Seq<char>, d: Seq<Seq<char>>)
    requires
        names_distinct(g),
    ensures
        names_distinct(g_insert(g, n, d)),
{
    lemma_g_pos(g, n);
    let h = g_insert(g, n, d);
    match g_pos(g, n) {
        Some(k) => {
            assert forall|i: int, j: int| 0 <= i < j < h.len() implies (#[trigger] h[i]).0 != (#[trigger] h[j]).0 by {
                assert(h[i].0 == g[i].0 && h[j].0 == g[j].0);
            }
        },
        None => {
            assert forall|i: int, j: int| 0 <= i < j < h.len() implies (#[trigger] h[i]).0 != (#[trigger] h[j]).0 by {
                if j < g.len() {
                    assert(h[i] == g[i] && h[j] == g[j]);
                } else {
                    assert(h[i] == g[i]);
                }
            }
        },
    }
}

proof fn lemma_add_components_distinct(g: Seq<(Seq<char>, Seq<Seq<char>>)>, s: Seq<Component>)
    requires
        names_distinct(g),
    ensures
        names_distinct(add_components(g, s)),
    decreases s.len(),
{
    if s.len() > 0 {
        lemma_add_components_distinct(g, s.drop_last());
        lemma_insert_distinct(add_components(g, s.drop_last()), s.last().name@, ss_deps(s.last().body@));
    }
}

proof fn lemma_add_functions_distinct(g: Seq<(Seq<char>, Seq<Seq<char>>)>, s: Seq<Function>)
    requires
        names_distinct(g),
    ensures
        names_distinct(add_functions(g, s)),
    decreases s.len(),
{
    if s.len() > 0 {
        lemma_add_functions_distinct(g, s.drop_last());
        lemma_insert_distinct(add_functions(g, s.drop_last()), s.last().name@, ss_deps(s.last().body@));
    }
}

/// Adding a program keeps the graph's names distinct.
pub proof fn lemma_graph_names_distinct(g: Seq<(Seq<char>, Seq<Seq<char>>)>, p: Program)
    requires
        names_distinct(g),
    ensures
        names_distinct(graph_of(g, p)),
{
    lemma_add_components_distinct(g, p.components@);
    lemma_add_functions_distinct(add_components(g, p.components@), p.functions@);
}

pub open spec fn add_components(g: Seq<(Seq<char>, Seq<Seq<char>>)>, s: Seq<Component>) -> Seq<(Seq<char>, Seq<Seq<char>>)>
    decreases s.len(),
{
    if s.len() == 0 { g } else { g_insert(add_components(g, s.drop_last()), s.last().name@, ss_deps(s.last().body@)) }
}

pub open spec fn add_functions(g: Seq<(Seq<char>, Seq<Seq<char>>)>, s: Seq<Function>) -> Seq<(Seq<char>, Seq<Seq<char>>)>
    decreases s.len(),
{
    if s.len() == 0 { g } else { g_insert(add_functions(g, s.drop_last()), s.last().name@, ss_deps(s.last().body@)) }
}

/// The graph after adding a program's components, then its functions.
pub open spec fn graph_of(g: Seq<(Seq<char>, Seq<Seq<char>>)>, p: Program) -> Seq<(Seq<char>, Seq<Seq<char>>)> {
    add_functions(add_components(g, p.components@), p.functions@)
}

pub open spec fn add_exports(r: Seq<Seq<char>>, s: Seq<Export>) -> Seq<Seq<char>>
    decreases s.len(),
{
    if s.len() == 0 { r } else { set_add(add_exports(r, s.drop_last()), s.last().name@) }
}

/// The entry points: every export; the first component when there is
/// nothing else.
pub open spec fn entries(r: Seq<Seq<char>>, p: Program) -> Seq<Seq<char>> {
    let e = add_exports(r, p.exports@);
    if e.len() == 0 && p.components@.len() > 0 { set_add(e, p.components@[0].name@) } else { e }
}

/// Every dependency of a member is a member.
pub open spec fn closed(s: Set<Seq<char>>, g: Seq<(Seq<char>, Seq<Seq<char>>)>) -> bool {
    forall|x: Seq<char>, d: Seq<char>| s.contains(x) && #[trigger] deps_of(g, x).contains(d) ==> #[trigger] s.contains(d)
}

/// `x` is reachable from `r0`: every closed set holding `r0` holds `x`.
pub open spec fn reachable(g: Seq<(Seq<char>, Seq<Seq<char>>)>, r0: Seq<Seq<char>>, x: Seq<char>) -> bool {
    forall|s: Set<Seq<char>>| #[trigger] closed(s, g) && r0.to_set().subset_of(s) ==> s.contains(x)
}

pub open spec fn distinct(s: Seq<Seq<char>>) -> bool {
    forall|i: int, j: int| 0 <= i < j < s.len() ==> s[i] != s[j]
}

/// The reachable set: it holds `r0`, is closed, and holds nothing else.
pub open spec fn reach_set(g: Seq<(Seq<char>, Seq<Seq<char>>)>, r0: Seq<Seq<char>>, r: Seq<Seq<char>>) -> bool {
    &&& distinct(r)
    &&& r0.to_set().subset_of(r.to_set())
    &&& closed(r.to_set(), g)
    &&& forall|x: Seq<char>| r.contains(x) ==> reachable(g, r0, x)
}

/// A name is kept exactly when it is reachable.
pub proof fn lemma_reach_exact(g: Seq<(Seq<char>, Seq<Seq<char>>)>, r0: Seq<Seq<char>>, r: Seq<Seq<char>>, x: Seq<char>)
    requires
        reach_set(g, r0, r),
    ensures
        r.contains(x) <==> reachable(g, r0, x),
{
    if reachable(g, r0, x) {
        assert(closed(r.to_set(), g));
        assert(r.to_set().contains(x));
    }
}

/// Every name of the graph's dependency lists, in order.
pub open spec fn flat(g: Seq<(Seq<char>, Seq<Seq<char>>)>) -> Seq<Seq<char>>
    decreases g.len(),
{
    if g.len() == 0 { seq![] } else { flat(g.drop_last()) + g.last().1 }
}

/// How many entries of `f` are not in `r`.
pub open spec fn uncovered(f: Seq<Seq<char>>, r: Seq<Seq<char>>) -> nat
    decreases f.len(),
{
    if f.len() == 0 {
        0
    } else {
        uncovered(f.drop_last(), r) + if r.contains(f.last()) { 0nat } else { 1nat }
    }
}

proof fn lemma_in_flat(g: Seq<(Seq<char>, Seq<Seq<char>>)>, i: int, d: Seq<char>)
    requires
        0 <= i < g.len(),
        g[i].1.contains(d),
    ensures
        flat(g).contains(d),
    decreases g.len(),
{
    if i == g.len() - 1 {
        let k = choose|k: int| 0 <= k < g[i].1.len() && g[i].1[k] == d;
        assert(flat(g)[flat(g.drop_last()).len() + k] == d);
    } else {
        assert(g.drop_last()[i] == g[i]);
        lemma_in_flat(g.drop_last(), i, d);
        let k = choose|k: int| 0 <= k < flat(g.drop_last()).len() && flat(g.drop_last())[k] == d;
        assert(flat(g)[k] == d);
    }
}

proof fn lemma_uncovered_push(f: Seq<Seq<char>>, r: Seq<Seq<char>>, d: Seq<char>)
    ensures
        uncovered(f, r.push(d)) <= uncovered(f, r),
        f.contains(d) && !r.contains(d) ==> uncovered(f, r.push(d)) < uncovered(f, r),
    decreases f.len(),
{
    if f.len() > 0 {
        lemma_uncovered_push(f.drop_last(), r, d);
        if r.contains(f.last()) {
            assert(r.push(d).contains(f.last())) by {
                let k = choose|k: int| 0 <= k < r.len() && r[k] == f.last();
                assert(r.push(d)[k] == f.last());
            }
        }
        if f.contains(d) && !r.contains(d) && f.last() != d {
            let k = choose|k: int| 0 <= k < f.len() && f[k] == d;
            assert(f.drop_last()[k] == d);
        }
        if f.last() == d {
            assert(r.push(d)[r.len() as int] == d);
        }
    }
}

// ---------------------------------------------------------------------------
// The shaker
// ---------------------------------------------------------------------------

pub struct TreeShaker {
    reachable: Vec<String>,
    dependency_graph: Vec<(String, Vec<String>)>,
}

pub open spec fn graph_views(v: Seq<(String, Vec<String>)>) -> Seq<(Seq<char>, Seq<Seq<char>>)> {
    v.map_values(|p: (String, Vec<String>)| (p.0@, views(p.1@)))
}

/// The position of `n` among the names of `v`.
fn graph_index(v: &Vec<(String, Vec<String>)>, n: &str) -> (r: Option<usize>)
    ensures
        match r {
            Some(j) => j < v.len() && g_pos(graph_views(v@), n@) == Some(j as int),
            None => g_pos(graph_views(v@), n@) is None,
        },
{
    let ghost g = graph_views(v@);
    let mut j: usize = v.len();
    assert(g.take(j as int) =~= g);
    while j > 0
        invariant
            j <= v.len(),
            g == graph_views(v@),
            g_pos(g, n@) == g_pos(g.take(j as int), n@),
        decreases j,
    {
        assert(g.take(j as int).drop_last() =~= g.take(j - 1));
        assert(g.take(j as int).last() == g[j - 1]);
        if str_eq(v[j - 1].0.as_str(), n) {
            return Some(j - 1);
        }
        j -= 1;
    }
    assert(g.take(0) =~= Seq::<(Seq<char>, Seq<Seq<char>>)>::empty());
    None
}

fn copy_strings(v: &Vec<String>) -> (r: Vec<String>)
    ensures
        views(r@) == views(v@),
{
    let r = v.clone();
    assert(views(r@) =~= views(v@));
    r
}

impl TreeShaker {
    pub closed spec fn graph(&self) -> Seq<(Seq<char>, Seq<Seq<char>>)> {
        graph_views(self.dependency_graph@)
    }

    pub closed spec fn reached(&self) -> Seq<Seq<char>> {
        views(self.reachable@)
    }

    pub open spec fn wf(&self) -> bool {
        &&& distinct(self.reached())
        &&& names_distinct(self.graph())
    }

    pub fn new() -> (t: TreeShaker)
        ensures
            t.wf(),
            t.graph().len() == 0,
            t.reached().len() == 0,
    {
        let t = TreeShaker { reachable: Vec::new(), dependency_graph: Vec::new() };
        assert(t.graph() =~= seq![]);
        assert(t.reached() =~= seq![]);
        t
    }

    /// Adds the program to the graph, takes its entry points, marks what
    /// they reach, and keeps the reached components and functions.
    pub fn shake(&mut self, program: Program) -> (r: Program)
        requires
            old(self).wf(),
        ensures
            final(self).wf(),
            final(self).graph() == graph_of(old(self).graph(), program),
            reach_set(final(self).graph(), entries(old(self).reached(), program), final(self).reached()),
            r.components@ == keep_components(program.components@, final(self).reached()),
            r.functions@ == keep_functions(program.functions@, final(self).reached()),
            r.imports == program.imports,
            r.exports == program.exports,
            r.css == program.css,
    {
        self.build_dependency_graph(&program);
        proof {
            lemma_graph_names_distinct(old(self).graph(), program);
        }
        self.find_entry_points(&program);
        self.mark_reachable();
        let Program { components, functions, imports, exports, css } = program;
        let components = filter_components(components, &self.reachable);
        let functions = filter_functions(functions, &self.reachable);
        Program { components, functions, imports, exports, css }
    }

    fn insert_deps(&mut self, name: &String, deps: Vec<String>)
        ensures
            final(self).graph() == g_insert(old(self).graph(), name@, views(deps@)),
            final(self).reachable == old(self).reachable,
    {
        let ghost g0 = self.graph();
        match graph_index(&self.dependency_graph, name.as_str()) {
            Some(j) => {
                self.dependency_graph.set(j, (name.clone(), deps));
                assert(self.graph() =~= g0.update(j as int, (name@, views(deps@))));
            }
            None => {
                self.dependency_graph.push((name.clone(), deps));
                assert(self.graph() =~= g0.push((name@, views(deps@))));
            }
        }
    }

    fn build_dependency_graph(&mut self, program: &Program)
        ensures
            final(self).graph() == graph_of(old(self).graph(), *program),
            final(self).reachable == old(self).reachable,
    {
        let mut i: usize = 0;
        while i < program.components.len()
            invariant
                i <= program.components.len(),
                self.reachable == old(self).reachable,
                self.graph() == add_components(old(self).graph(), program.components@.take(i as int)),
            decreases program.components.len() - i,
        {
            let deps = self.find_deps(&program.components[i].body);
            self.insert_deps(&program.components[i].name, deps);
            assert(program.components@.take(i + 1).drop_last() =~= program.components@.take(i as int));
            i += 1;
        }
        assert(program.components@.take(program.components.len() as int) =~= program.components@);
        let ghost g1 = self.graph();
        let mut j: usize = 0;
        while j < program.functions.len()
            invariant
                j <= program.functions.len(),
                self.reachable == old(self).reachable,
                self.graph() == add_functions(g1, program.functions@.take(j as int)),
            decreases program.functions.len() - j,
        {
            let deps = self.find_deps(&program.functions[j].body);
            self.insert_deps(&program.functions[j].name, deps);
            assert(program.functions@.take(j + 1).drop_last() =~= program.functions@.take(j as int));
            j += 1;
        }
        assert(program.functions@.take(program.functions.len() as int) =~= program.functions@);
    }

    /// The names a body depends on.
    fn find_deps(&self, body: &Vec<Stmt>) -> (deps: Vec<String>)
        ensures
            views(deps@) == ss_deps(body@),
    {
        let mut deps: Vec<String> = Vec::new();
        self.collect_stmts(body, &mut deps);
        assert(views(deps@) =~= ss_deps(body@));
        deps
    }

    #[verifier::loop_isolation(false)]
    fn collect_stmts(&self, stmts: &Vec<Stmt>, deps: &mut Vec<String>)
        ensures
            views(final(deps)@) == views(old(deps)@) + ss_deps(stmts@),
        decreases stmts,
    {
        let mut i: usize = 0;
        while i < stmts.len()
            invariant
                i <= stmts.len(),
                views(deps@) == views(old(deps)@) + ss_deps(stmts@.take(i as int)),
            decreases stmts.len() - i,
        {
            proof {
                assert(decreases_to!(stmts => stmts@));
                assert(decreases_to!(stmts@ => stmts@[i as int]));
            }
            self.collect_deps_from_stmt(&stmts[i], deps);
            assert(stmts@.take(i + 1).drop_last() =~= stmts@.take(i as int));
            assert(views(deps@) =~= views(old(deps)@) + ss_deps(stmts@.take(i + 1)));
            i += 1;
        }
        assert(stmts@.take(stmts.len() as int) =~= stmts@);
    }

    #[verifier::loop_isolation(false)]
    fn collect_elifs(&self, elifs: &Vec<(Expr, Vec<Stmt>)>, deps: &mut Vec<String>)
        ensures
            views(final(deps)@) == views(old(deps)@) + elif_deps(elifs@),
        decreases elifs,
    {
        let mut i: usize = 0;
        while i < elifs.len()
            invariant
                i <= elifs.len(),
                views(deps@) == views(old(deps)@) + elif_deps(elifs@.take(i as int)),
            decreases elifs.len() - i,
        {
            proof {
                assert(decreases_to!(elifs => elifs@));
                assert(decreases_to!(elifs@ => elifs@[i as int]));
                assert(decreases_to!(elifs@[i as int] => elifs@[i as int].1));
            }
            self.collect_stmts(&elifs[i].1, deps);
            assert(elifs@.take(i + 1).drop_last() =~= elifs@.take(i as int));
            assert(views(deps@) =~= views(old(deps)@) + elif_deps(elifs@.take(i + 1)));
            i += 1;
        }
        assert(elifs@.take(elifs.len() as int) =~= elifs@);
    }

    fn collect_deps_from_stmt(&self, stmt: &Stmt, deps: &mut Vec<String>)
        ensures
            views(final(deps)@) == views(old(deps)@) + s_deps(*stmt),
        decreases stmt,
    {
        match stmt {
            Stmt::Expr(expr) => self.collect_deps_from_expr(expr, deps),
            Stmt::Return(expr) => self.collect_deps_from_expr(expr, deps),
            Stmt::Assign(assign) => self.collect_deps_from_expr(&assign.value, deps),
            Stmt::Var(var) => self.collect_deps_from_expr(&var.value, deps),
            Stmt::If(if_stmt) => {
                self.collect_deps_from_expr(&if_stmt.cond, deps);
                self.collect_stmts(&if_stmt.body, deps);
                self.collect_elifs(&if_stmt.else_if, deps);
                match &if_stmt.else_body {
                    Some(b) => self.collect_stmts(b, deps),
                    None => {}
                }
                assert(views(deps@) =~= views(old(deps)@) + s_deps(*stmt));
            }
            Stmt::For(for_stmt) => {
                self.collect_deps_from_expr(&for_stmt.iter, deps);
                self.collect_stmts(&for_stmt.body, deps);
                assert(views(deps@) =~= views(old(deps)@) + s_deps(*stmt));
            }
            Stmt::While(while_stmt) => {
                self.collect_deps_from_expr(&while_stmt.cond, deps);
                self.collect_stmts(&while_stmt.body, deps);
                assert(views(deps@) =~= views(old(deps)@) + s_deps(*stmt));
            }
            Stmt::Block(block) => self.collect_stmts(block, deps),
        }
    }

    #[verifier::loop_isolation(false)]
    fn collect_exprs(&self, exprs: &Vec<Expr>, deps: &mut Vec<String>)
        ensures
            views(final(deps)@) == views(old(deps)@) + es_deps(exprs@),
        decreases exprs,
    {
        let mut i: usize = 0;
        while i < exprs.len()
            invariant
                i <= exprs.len(),
                views(deps@) == views(old(deps)@) + es_deps(exprs@.take(i as int)),
            decreases exprs.len() - i,
        {
            proof {
                assert(decreases_to!(exprs => exprs@));
                assert(decreases_to!(exprs@ => exprs@[i as int]));
            }
            self.collect_deps_from_expr(&exprs[i], deps);
            assert(exprs@.take(i + 1).drop_last() =~= exprs@.take(i as int));
            assert(views(deps@) =~= views(old(deps)@) + es_deps(exprs@.take(i + 1)));
            i += 1;
        }
        assert(exprs@.take(exprs.len() as int) =~= exprs@);
    }

    #[verifier::loop_isolation(false)]
    fn collect_props(&self, props: &Vec<ObjectProp>, deps: &mut Vec<String>)
        ensures
            views(final(deps)@) == views(old(deps)@) + ps_deps(props@),
        decreases props,
    {
        let mut i: usize = 0;
        while i < props.len()
            invariant
                i <= props.len(),
                views(deps@) == views(old(deps)@) + ps_deps(props@.take(i as int)),
            decreases props.len() - i,
        {
            proof {
                assert(decreases_to!(props => props@));
                assert(decreases_to!(props@ => props@[i as int]));
                assert(decreases_to!(props@[i as int] => props@[i as int].value));
            }
            self.collect_deps_from_expr(&props[i].value, deps);
            assert(props@.take(i + 1).drop_last() =~= props@.take(i as int));
            assert(views(deps@) =~= views(old(deps)@) + ps_deps(props@.take(i + 1)));
            i += 1;
        }
        assert(props@.take(props.len() as int) =~= props@);
    }

    fn collect_deps_from_expr(&self, expr: &Expr, deps: &mut Vec<String>)
        ensures
            views(final(deps)@) == views(old(deps)@) + e_deps(*expr),
        decreases expr,
    {
        match expr {
            Expr::Call(call) => {
                match &*call.callee {
                    Expr::Ident(ident) => {
                        let ghost d0 = deps@;
                        deps.push(ident.name.clone());
                        assert(views(deps@) =~= views(d0).push(ident.name@));
                    }
                    _ => {}
                }
                self.collect_deps_from_expr(&call.callee, deps);
                self.collect_exprs(&call.args, deps);
                assert(views(deps@) =~= views(old(deps)@) + e_deps(*expr));
            }
            Expr::Ident(ident) => {
                let cs = chars_of(ident.name.as_str());
                if cs.len() > 0 && is_uppercase(cs[0]) {
                    let ghost d0 = deps@;
                    deps.push(ident.name.clone());
                    assert(views(deps@) =~= views(d0).push(ident.name@));
                }
                assert(views(deps@) =~= views(old(deps)@) + e_deps(*expr));
            }
            Expr::Binary(binary) => {
                self.collect_deps_from_expr(&binary.left, deps);
                self.collect_deps_from_expr(&binary.right, deps);
                assert(views(deps@) =~= views(old(deps)@) + e_deps(*expr));
            }
            Expr::Unary(unary) => self.collect_deps_from_expr(&unary.expr, deps),
            Expr::Member(member) => self.collect_deps_from_expr(&member.obj, deps),
            Expr::Object(object) => self.collect_props(&object.props, deps),
            Expr::Array(array) => self.collect_exprs(&array.elements, deps),
            Expr::Lambda(lambda) => self.collect_deps_from_expr(&lambda.body, deps),
            Expr::Ternary(cond, then_expr, else_expr) => {
                self.collect_deps_from_expr(cond, deps);
                self.collect_deps_from_expr(then_expr, deps);
                self.collect_deps_from_expr(else_expr, deps);
                assert(views(deps@) =~= views(old(deps)@) + e_deps(*expr));
            }
            _ => {
                assert(views(deps@) =~= views(old(deps)@) + e_deps(*expr));
            }
        }
    }

    fn find_entry_points(&mut self, program: &Program)
        requires
            old(self).wf(),
        ensures
            final(self).wf(),
            final(self).reached() == entries(old(self).reached(), *program),
            final(self).dependency_graph == old(self).dependency_graph,
    {
        let mut i: usize = 0;
        while i < program.exports.len()
            invariant
                i <= program.exports.len(),
                self.wf(),
                self.dependency_graph == old(self).dependency_graph,
                self.reached() == add_exports(old(self).reached(), program.exports@.take(i as int)),
            decreases program.exports.len() - i,
        {
            self.reach(program.exports[i].name.as_str());
            assert(program.exports@.take(i + 1).drop_last() =~= program.exports@.take(i as int));
            i += 1;
        }
        assert(program.exports@.take(program.exports.len() as int) =~= program.exports@);
        if self.reachable.len() == 0 && program.components.len() > 0 {
            self.reach(program.components[0].name.as_str());
        }
    }

    /// Adds `n` to the reached names unless it is there.
    fn reach(&mut self, n: &str)
        requires
            old(self).wf(),
        ensures
            final(self).wf(),
            final(self).reached() == set_add(old(self).reached(), n@),
            final(self).dependency_graph == old(self).dependency_graph,
    {
        let ghost r0 = self.reached();
        set_insert(&mut self.reachable, n);
        proof {
            if !r0.contains(n@) {
                assert forall|i: int, j: int| 0 <= i < j < self.reached().len() implies self.reached()[i]
                    != self.reached()[j] by {
                    if j == r0.len() {
                        assert(self.reached()[i] == r0[i]);
                        assert(r0.contains(r0[i]));
                    }
                }
            }
        }
    }

    /// Marks every name reachable from the current ones, breadth first.
    fn mark_reachable(&mut self)
        requires
            old(self).wf(),
        ensures
            final(self).wf(),
            final(self).dependency_graph == old(self).dependency_graph,
            reach_set(final(self).graph(), old(self).reached(), final(self).reached()),
    {
        let ghost g = self.graph();
        let ghost r0 = self.reached();
        let ghost f = flat(g);
        let mut queue = copy_strings(&self.reachable);
        let mut head: usize = 0;
        proof {
            assert forall|k: int| 0 <= k < queue@.len() implies self.reached().contains(#[trigger] queue@[k]@) by {
                assert(views(queue@)[k] == self.reached()[k]);
            }
            assert forall|x: Seq<char>| r0.contains(x) implies reachable(g, r0, x) by {
                assert forall|s: Set<Seq<char>>| #[trigger] closed(s, g) && r0.to_set().subset_of(s) implies s.contains(x) by {
                    assert(r0.to_set().contains(x));
                }
            }
        }
        while head < queue.len()
            invariant
                self.wf(),
                self.dependency_graph == old(self).dependency_graph,
                g == self.graph(),
                f == flat(g),
                head <= queue.len(),
                r0.to_set().subset_of(self.reached().to_set()),
                forall|x: Seq<char>| self.reached().contains(x) ==> reachable(g, r0, x),
                forall|k: int| 0 <= k < queue@.len() ==> self.reached().contains(#[trigger] queue@[k]@),
                forall|x: Seq<char>| #[trigger] self.reached().contains(x) ==> views(queue@).contains(x),
                forall|k: int, d: Seq<char>| 0 <= k < head && #[trigger] deps_of(g, queue@[k]@).contains(d)
                    ==> self.reached().contains(d),
            decreases 2 * uncovered(f, self.reached()) + queue.len() - head,
        {
            let ghost m0 = 2 * uncovered(f, self.reached()) + queue.len() - head;
            let current = queue[head].clone();
            head += 1;
            proof {
                lemma_g_pos(g, current@);
            }
            match graph_index(&self.dependency_graph, current.as_str()) {
                Some(j) => {
                    let ghost ds = g[j as int].1;
                    assert(ds == views(self.dependency_graph@[j as int].1@));
                    assert(deps_of(g, current@) == ds);
                    let mut k: usize = 0;
                    while k < self.dependency_graph[j].1.len()
                        invariant
                            self.wf(),
                            self.dependency_graph == old(self).dependency_graph,
                            g == self.graph(),
                            f == flat(g),
                            j < self.dependency_graph.len(),
                            ds == views(self.dependency_graph@[j as int].1@),
                            deps_of(g, current@) == ds,
                            current@ == queue@[head - 1]@,
                            1 <= head <= queue.len(),
                            k <= ds.len(),
                            2 * uncovered(f, self.reached()) + queue.len() - head < m0,
                            r0.to_set().subset_of(self.reached().to_set()),
                            reachable(g, r0, current@),
                            forall|x: Seq<char>| self.reached().contains(x) ==> reachable(g, r0, x),
                            forall|q: int| 0 <= q < queue@.len() ==> self.reached().contains(#[trigger] queue@[q]@),
                            forall|x: Seq<char>| #[trigger] self.reached().contains(x) ==> views(queue@).contains(x),
                            forall|q: int, d: Seq<char>| 0 <= q < head - 1 && #[trigger] deps_of(g, queue@[q]@).contains(d)
                                ==> self.reached().contains(d),
                            forall|q: int| 0 <= q < k ==> self.reached().contains(#[trigger] ds[q]),
                        decreases ds.len() - k,
                    {
                        let dep = &self.dependency_graph[j].1[k];
                        assert(dep@ == ds[k as int]);
                        if !contains_string(&self.reachable, dep.as_str()) {
                            let d = dep.clone();
                            let ghost rr = self.reached();
                            proof {
                                assert(ds.contains(d@));
                                lemma_in_flat(g, j as int, d@);
                                lemma_uncovered_push(f, rr, d@);
                                // what reaches `current` reaches its dependencies
                                assert forall|s: Set<Seq<char>>| #[trigger] closed(s, g) && r0.to_set().subset_of(s)
                                    implies s.contains(d@) by {
                                    assert(s.contains(current@));
                                    assert(deps_of(g, current@).contains(d@));
                                }
                            }
                            let ghost q0 = queue@;
                            queue.push(d.clone());
                            self.reachable.push(d);
                            proof {
                                assert(self.reached() =~= rr.push(d@));
                                assert forall|a: int, b: int| 0 <= a < b < self.reached().len() implies self.reached()[a]
                                    != self.reached()[b] by {
                                    if b == rr.len() {
                                        assert(self.reached()[a] == rr[a]);
                                        assert(rr.contains(rr[a]));
                                    }
                                }
                                assert(views(queue@) =~= views(q0).push(d@));
                                assert forall|x: Seq<char>| #[trigger] self.reached().contains(x) implies views(
                                    queue@,
                                ).contains(x) by {
                                    if x == d@ {
                                        assert(views(queue@)[q0.len() as int] == x);
                                    } else {
                                        let a = choose|a: int| 0 <= a < self.reached().len() && self.reached()[a] == x;
                                        assert(rr[a] == x);
                                        assert(rr.contains(x));
                                        let b = choose|b: int| 0 <= b < views(q0).len() && views(q0)[b] == x;
                                        assert(views(queue@)[b] == x);
                                    }
                                }
                                assert forall|y: Seq<char>| rr.contains(y) implies self.reached().contains(y) by {
                                    let a = choose|a: int| 0 <= a < rr.len() && rr[a] == y;
                                    assert(self.reached()[a] == y);
                                }
                                assert forall|q: int| 0 <= q < queue@.len() implies self.reached().contains(#[trigger] queue@[q]@) by {
                                    if q == q0.len() {
                                        assert(self.reached()[rr.len() as int] == d@);
                                    } else {
                                        assert(queue@[q] == q0[q]);
                                        assert(rr.contains(q0[q]@));
                                    }
                                }
                                assert(self.reached().contains(d@)) by {
                                    assert(self.reached()[rr.len() as int] == d@);
                                }
                                assert(r0.to_set().subset_of(self.reached().to_set())) by {
                                    assert forall|y: Seq<char>| r0.to_set().contains(y) implies self.reached().to_set().contains(y) by {
                                        assert(rr.to_set().contains(y));
                                    }
                                }
                            }
                        }
                        k += 1;
                    }
                    proof {
                        assert forall|q: int, d: Seq<char>| 0 <= q < head && #[trigger] deps_of(g, queue@[q]@).contains(d)
                            implies self.reached().contains(d) by {
                            if q == head - 1 {
                                let a = choose|a: int| 0 <= a < ds.len() && ds[a] == d;
                                assert(self.reached().contains(ds[a]));
                            }
                        }
                    }
                }
                None => {
                    proof {
                        assert(deps_of(g, current@) =~= Seq::<Seq<char>>::empty());
                        assert forall|q: int, d: Seq<char>| 0 <= q < head && #[trigger] deps_of(g, queue@[q]@).contains(d)
                            implies self.reached().contains(d) by {
                            if q == head - 1 {
                                assert(deps_of(g, queue@[q]@) == deps_of(g, current@));
                            }
                        }
                    }
                }
            }
        }
        proof {
            assert forall|x: Seq<char>, d: Seq<char>| self.reached().to_set().contains(x) && #[trigger] deps_of(g, x).contains(d)
                implies #[trigger] self.reached().to_set().contains(d) by {
                assert(self.reached().contains(x));
                assert(views(queue@).contains(x));
                let q = choose|q: int| 0 <= q < views(queue@).len() && views(queue@)[q] == x;
                assert(queue@[q]@ == x);
                assert(deps_of(g, queue@[q]@).contains(d));
            }
        }
    }

    /// How many components and functions of `program` are not reached.
    pub fn get_removed_count(&self, program: &Program) -> (n: usize)
        requires
            program.components.len() + program.functions.len() <= usize::MAX,
        ensures
            n == count_unlisted_components(program.components@, self.reached())
                + count_unlisted_functions(program.functions@, self.reached()),
    {
        let mut count: usize = 0;
        let mut i: usize = 0;
        while i < program.components.len()
            invariant
                i <= program.components.len(),
                count == count_unlisted_components(program.components@.take(i as int), self.reached()),
                count <= i,
            decreases program.components.len() - i,
        {
            assert(program.components@.take(i + 1).drop_last() =~= program.components@.take(i as int));
            if !contains_string(&self.reachable, program.components[i].name.as_str()) {
                count += 1;
            }
            i += 1;
        }
        assert(program.components@.take(program.components.len() as int) =~= program.components@);
        let ghost c1 = count;
        let mut j: usize = 0;
        while j < program.functions.len()
            invariant
                j <= program.functions.len(),
                c1 <= program.components.len(),
                program.components.len() + program.functions.len() <= usize::MAX,
                count == c1 + count_unlisted_functions(program.functions@.take(j as int), self.reached()),
                count <= c1 + j,
            decreases program.functions.len() - j,
        {
            assert(program.functions@.take(j + 1).drop_last() =~= program.functions@.take(j as int));
            if !contains_string(&self.reachable, program.functions[j].name.as_str()) {
                count += 1;
            }
            j += 1;
        }
        assert(program.functions@.take(program.functions.len() as int) =~= program.functions@);
        count
    }

    /// The names in the graph that are not reached, in graph order.
    pub fn get_removed_names(&self) -> (v: Vec<String>)
        ensures
            views(v@) == unreached_names(self.graph(), self.reached()),
            self.wf() ==> distinct(views(v@)),
    {
        proof {
            if self.wf() {
                lemma_unreached_distinct(self.graph(), self.reached());
            }
        }
        let mut removed: Vec<String> = Vec::new();
        let mut i: usize = 0;
        while i < self.dependency_graph.len()
            invariant
                i <= self.dependency_graph.len(),
                views(removed@) == unreached_names(self.graph().take(i as int), self.reached()),
            decreases self.dependency_graph.len() - i,
        {
            let ghost r0 = removed@;
            assert(self.graph().take(i + 1).drop_last() =~= self.graph().take(i as int));
            assert(self.graph().take(i + 1).last() == self.graph()[i as int]);
            if !contains_string(&self.reachable, self.dependency_graph[i].0.as_str()) {
                removed.push(self.dependency_graph[i].0.clone());
                assert(views(removed@) =~= views(r0).push(self.graph()[i as int].0));
            }
            i += 1;
        }
        assert(self.graph().take(self.dependency_graph.len() as int) =~= self.graph());
        removed
    }
}

proof fn lemma_unreached_names(g: Seq<(Seq<char>, Seq<Seq<char>>)>, r: Seq<Seq<char>>)
    ensures
        forall|x: int| 0 <= x < unreached_names(g, r).len() ==> exists|i: int|
            0 <= i < g.len() && (#[trigger] g[i]).0 == #[trigger] unreached_names(g, r)[x],
    decreases g.len(),
{
    if g.len() > 0 {
        let d = g.drop_last();
        lemma_unreached_names(d, r);
        let u = unreached_names(g, r);
        assert forall|x: int| 0 <= x < u.len() implies exists|i: int| 0 <= i < g.len() && (#[trigger] g[i]).0 == #[trigger] u[x] by {
            if x < unreached_names(d, r).len() {
                assert(u[x] == unreached_names(d, r)[x]);
                let i = choose|i: int| 0 <= i < d.len() && (#[trigger] d[i]).0 == unreached_names(d, r)[x];
                assert(g[i] == d[i]);
            } else {
                assert(u[x] == g[g.len() - 1].0);
            }
        }
    }
}

/// With distinct names in the graph, the unreached names are distinct.
proof fn lemma_unreached_distinct(g: Seq<(Seq<char>, Seq<Seq<char>>)>, r: Seq<Seq<char>>)
    requires
        names_distinct(g),
    ensures
        distinct(unreached_names(g, r)),
    decreases g.len(),
{
    if g.len() > 0 {
        let d = g.drop_last();
        assert(names_distinct(d)) by {
            assert forall|i: int, j: int| 0 <= i < j < d.len() implies (#[trigger] d[i]).0 != (#[trigger] d[j]).0 by {
                assert(d[i] == g[i] && d[j] == g[j]);
            }
        }
        lemma_unreached_distinct(d, r);
        lemma_unreached_names(d, r);
        let u = unreached_names(g, r);
        let ud = unreached_names(d, r);
        if !r.contains(g.last().0) {
            assert forall|x: int, y: int| 0 <= x < y < u.len() implies u[x] != u[y] by {
                if y == ud.len() {
                    assert(u[x] == ud[x]);
                    let i = choose|i: int| 0 <= i < d.len() && (#[trigger] d[i]).0 == #[trigger] ud[x];
                    assert(g[i] == d[i]);
                    assert(g[i].0 != g[g.len() - 1].0);
                } else {
                    assert(u[x] == ud[x] && u[y] == ud[y]);
                }
            }
        }
    }
}

/// The graph's names not in `r`, in order.
pub open spec fn unreached_names(g: Seq<(Seq<char>, Seq<Seq<char>>)>, r: Seq<Seq<char>>) -> Seq<Seq<char>>
    decreases g.len(),
{
    if g.len() == 0 {
        seq![]
    } else if r.contains(g.last().0) {
        unreached_names(g.drop_last(), r)
    } else {
        unreached_names(g.drop_last(), r).push(g.last().0)
    }
}

} // verus!
