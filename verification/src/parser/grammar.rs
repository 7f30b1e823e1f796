//! Structural checks on a parsed program and on source indentation.
use vstd::prelude::*;
use crate::ast::{Expr, Stmt, ObjectProp, Param, Component, Function, Program};
use crate::text::{owned, push_str, push_string, push_decimal, views};

verus! {

/// The error for an identifier with an empty name.
pub open spec fn empty_ident_msg() -> Seq<char> {
    "Identifier name cannot be empty"@
}

/// The errors found in an expression: one per empty identifier, in
/// left-to-right order.
pub open spec fn expr_errs(e: Expr) -> Seq<Seq<char>>
    decreases e,
{
    match e {
        Expr::Literal(_) => seq![],
        Expr::Ident(i) => if i.name@.len() == 0 { seq![empty_ident_msg()] } else { seq![] },
        Expr::Call(c) => expr_errs(*c.callee) + exprs_errs(c.args@),
        Expr::Binary(b) => expr_errs(*b.left) + expr_errs(*b.right),
        Expr::Unary(u) => expr_errs(*u.expr),
        Expr::Member(m) => expr_errs(*m.obj),
        Expr::Object(o) => props_errs(o.props@),
        Expr::Array(a) => exprs_errs(a.elements@),
        Expr::Lambda(l) => expr_errs(*l.body),
        Expr::Ternary(c, t, f) => expr_errs(*c) + expr_errs(*t) + expr_errs(*f),
        Expr::Template(t) => exprs_errs(t.expressions@),
        Expr::Await(a) => expr_errs(*a.expr),
        Expr::Spread(s) => expr_errs(*s.expr),
    }
}

pub open spec fn exprs_errs(s: Seq<Expr>) -> Seq<Seq<char>>
    decreases s,
{
    if s.len() == 0 { seq![] } else { exprs_errs(s.drop_last()) + expr_errs(s.last()) }
}

pub open spec fn props_errs(s: Seq<ObjectProp>) -> Seq<Seq<char>>
    decreases s,
{
    if s.len() == 0 { seq![] } else { props_errs(s.drop_last()) + expr_errs(s.last().value) }
}

/// The errors found in a statement, in order.
pub open spec fn stmt_errs(st: Stmt) -> Seq<Seq<char>>
    decreases st,
{
    match st {
        Stmt::Expr(e) => expr_errs(e),
        Stmt::Return(e) => expr_errs(e),
        Stmt::If(i) => expr_errs(i.cond) + stmts_errs(i.body@) + elifs_errs(i.else_if@) + match i.else_body {
            Some(b) => stmts_errs(b@),
            None => seq![],
        },
        Stmt::For(f) => expr_errs(f.iter) + stmts_errs(f.body@),
        Stmt::While(w) => expr_errs(w.cond) + stmts_errs(w.body@),
        Stmt::Assign(a) => expr_errs(a.value),
        Stmt::Var(v) => expr_errs(v.value),
        Stmt::Block(b) => stmts_errs(b@),
    }
}

pub open spec fn stmts_errs(s: Seq<Stmt>) -> Seq<Seq<char>>
    decreases s,
{
    if s.len() == 0 { seq![] } else { stmts_errs(s.drop_last()) + stmt_errs(s.last()) }
}

pub open spec fn elifs_errs(s: Seq<(Expr, Vec<Stmt>)>) -> Seq<Seq<char>>
    decreases s,
{
    if s.len() == 0 {
        seq![]
    } else {
        elifs_errs(s.drop_last()) + expr_errs(s.last().0) + stmts_errs(s.last().1@)
    }
}

/// The type names a parameter may be annotated with.
pub open spec fn valid_type(t: Seq<char>) -> bool {
    t == "str"@ || t == "int"@ || t == "float"@ || t == "bool"@ || t == "list"@ || t == "dict"@
        || t == "None"@ || t == "Any"@
}

pub open spec fn param_errs(p: Param) -> Seq<Seq<char>> {
    (if p.name@.len() == 0 { seq!["Parameter name cannot be empty"@] } else { seq![] })
        + match p.type_hint {
        Some(t) => if valid_type(t@) { seq![] } else { seq!["Invalid type hint: "@ + t@] },
        None => seq![],
    }
}

pub open spec fn params_errs(s: Seq<Param>) -> Seq<Seq<char>>
    decreases s.len(),
{
    if s.len() == 0 { seq![] } else { params_errs(s.drop_last()) + param_errs(s.last()) }
}

/// A statement sequence certainly returns: some statement is a `return`, a
/// block that certainly returns, or an `if` whose body and `else` body both
/// certainly return.
pub open spec fn stmts_return(s: Seq<Stmt>) -> bool
    decreases s,
{
    s.len() > 0 && (stmts_return(s.drop_last()) || stmt_returns(s.last()))
}

pub open spec fn stmt_returns(st: Stmt) -> bool
    decreases st,
{
    match st {
        Stmt::Return(_) => true,
        Stmt::Block(b) => stmts_return(b@),
        Stmt::If(i) => stmts_return(i.body@) && match i.else_body {
            Some(b) => stmts_return(b@),
            None => false,
        },
        _ => false,
    }
}

/// Component names must be non-empty (the uppercase check reads the first
/// character).
pub open spec fn component_errs(c: Component) -> Seq<Seq<char>> {
    (if crate::text::uppercase(c.name@[0]) { seq![] } else {
        seq!["Component name '"@ + c.name@ + "' must start with uppercase letter"@]
    }) + params_errs(c.params@) + stmts_errs(c.body@)
}

pub open spec fn function_errs(f: Function) -> Seq<Seq<char>> {
    (if f.name@.len() == 0 { seq!["Function name cannot be empty"@] } else { seq![] })
        + params_errs(f.params@) + (if !stmts_return(f.body@) && f.return_type is Some {
        seq!["Function '"@ + f.name@ + "' declared with return type but has no return statement"@]
    } else {
        seq![]
    })
}

pub open spec fn components_errs(s: Seq<Component>) -> Seq<Seq<char>>
    decreases s.len(),
{
    if s.len() == 0 { seq![] } else { components_errs(s.drop_last()) + component_errs(s.last()) }
}

pub open spec fn functions_errs(s: Seq<Function>) -> Seq<Seq<char>>
    decreases s.len(),
{
    if s.len() == 0 { seq![] } else { functions_errs(s.drop_last()) + function_errs(s.last()) }
}

/// Every component has a non-empty name.
pub open spec fn named_components(p: Program) -> bool {
    forall|i: int| 0 <= i < p.components@.len() ==> (#[trigger] p.components@[i]).name@.len() > 0
}

pub struct GrammarChecker {
    errors: Vec<String>,
}

impl GrammarChecker {
    pub closed spec fn spec_errors(&self) -> Seq<Seq<char>> {
        views(self.errors@)
    }

    pub fn new() -> (g: GrammarChecker)
        ensures
            g.spec_errors().len() == 0,
    {
        GrammarChecker { errors: Vec::new() }
    }

    fn push(&mut self, e: String)
        ensures
            final(self).spec_errors() == old(self).spec_errors().push(e@),
    {
        self.errors.push(e);
        assert(views(self.errors@) =~= views(old(self).errors@).push(e@));
    }

    /// Checks every component, then every function; fails with all the
    /// errors found so far when there are any.
    pub fn check(&mut self, program: &Program) -> (r: Result<(), Vec<String>>)
        requires
            named_components(*program),
        ensures
            final(self).spec_errors() == old(self).spec_errors() + components_errs(program.components@)
                + functions_errs(program.functions@),
            r is Ok <==> final(self).spec_errors().len() == 0,
            r matches Err(v) ==> views(v@) == final(self).spec_errors(),
    {
        let ghost e0 = self.spec_errors();
        let mut i: usize = 0;
        while i < program.components.len()
            invariant
                i <= program.components.len(),
                named_components(*program),
                self.spec_errors() == e0 + components_errs(program.components@.take(i as int)),
            decreases program.components.len() - i,
        {
            assert(program.components@[i as int].name@.len() > 0);
            self.check_component(&program.components[i]);
            assert(program.components@.take(i + 1).drop_last() =~= program.components@.take(i as int));
            i += 1;
        }
        assert(program.components@.take(program.components.len() as int) =~= program.components@);
        let ghost e1 = self.spec_errors();
        let mut j: usize = 0;
        while j < program.functions.len()
            invariant
                j <= program.functions.len(),
                self.spec_errors() == e1 + functions_errs(program.functions@.take(j as int)),
            decreases program.functions.len() - j,
        {
            self.check_function(&program.functions[j]);
            assert(program.functions@.take(j + 1).drop_last() =~= program.functions@.take(j as int));
            j += 1;
        }
        assert(program.functions@.take(program.functions.len() as int) =~= program.functions@);
        if !self.errors.is_empty() {
            Err(self.errors.clone())
        } else {
            Ok(())
        }
    }

    fn check_component(&mut self, component: &Component)
        requires
            component.name@.len() > 0,
        ensures
            final(self).spec_errors() == old(self).spec_errors() + component_errs(*component),
    {
        let name = crate::text::chars_of(component.name.as_str());
        let first = name[0];
        if !crate::text::is_uppercase(first) {
            let mut m = owned("Component name '");
            push_string(&mut m, &component.name);
            push_str(&mut m, "' must start with uppercase letter");
            self.push(m);
        }
        let ghost e1 = self.spec_errors();
        self.check_params(&component.params);
        self.check_stmts(&component.body);
        assert(self.spec_errors() =~= old(self).spec_errors() + component_errs(*component));
    }

    fn check_function(&mut self, function: &Function)
        ensures
            final(self).spec_errors() == old(self).spec_errors() + function_errs(*function),
    {
        if function.name.as_str().is_empty() {
            self.push(owned("Function name cannot be empty"));
        }
        self.check_params(&function.params);
        let has_return = self.check_returns(&function.body);
        if !has_return && function.return_type.is_some() {
            let mut m = owned("Function '");
            push_string(&mut m, &function.name);
            push_str(&mut m, "' declared with return type but has no return statement");
            self.push(m);
        }
        assert(self.spec_errors() =~= old(self).spec_errors() + function_errs(*function));
    }

    fn check_params(&mut self, params: &Vec<Param>)
        ensures
            final(self).spec_errors() == old(self).spec_errors() + params_errs(params@),
    {
        let mut i: usize = 0;
        while i < params.len()
            invariant
                i <= params.len(),
                self.spec_errors() == old(self).spec_errors() + params_errs(params@.take(i as int)),
            decreases params.len() - i,
        {
            self.check_param(&params[i]);
            assert(params@.take(i + 1).drop_last() =~= params@.take(i as int));
            i += 1;
        }
        assert(params@.take(params.len() as int) =~= params@);
    }

    fn check_param(&mut self, param: &Param)
        ensures
            final(self).spec_errors() == old(self).spec_errors() + param_errs(*param),
    {
        if param.name.as_str().is_empty() {
            self.push(owned("Parameter name cannot be empty"));
        }
        let ghost e1 = self.spec_errors();
        match &param.type_hint {
            Some(type_hint) => {
                if !self.is_valid_type(type_hint.as_str()) {
                    let mut m = owned("Invalid type hint: ");
                    push_string(&mut m, type_hint);
                    self.push(m);
                }
            }
            None => {}
        }
        assert(self.spec_errors() =~= old(self).spec_errors() + param_errs(*param));
    }

    /// Whether `ty` is one of the known type names.
    pub fn is_valid_type(&self, ty: &str) -> (b: bool)
        ensures
            b == valid_type(ty@),
    {
        let t = ty;
        crate::text::str_eq(t, "str") || crate::text::str_eq(t, "int") || crate::text::str_eq(t, "float")
            || crate::text::str_eq(t, "bool") || crate::text::str_eq(t, "list") || crate::text::str_eq(t, "dict")
            || crate::text::str_eq(t, "None") || crate::text::str_eq(t, "Any")
    }

    #[verifier::loop_isolation(false)]
    fn check_stmts(&mut self, stmts: &Vec<Stmt>)
        ensures
            final(self).spec_errors() == old(self).spec_errors() + stmts_errs(stmts@),
        decreases stmts,
    {
        let mut i: usize = 0;
        while i < stmts.len()
            invariant
                i <= stmts.len(),
                self.spec_errors() == old(self).spec_errors() + stmts_errs(stmts@.take(i as int)),
            decreases stmts.len() - i,
        {
            proof {
                assert(decreases_to!(stmts => stmts@));
                assert(decreases_to!(stmts@ => stmts@[i as int]));
            }
            self.check_stmt(&stmts[i]);
            assert(stmts@.take(i + 1).drop_last() =~= stmts@.take(i as int));
            i += 1;
        }
        assert(stmts@.take(stmts.len() as int) =~= stmts@);
    }

    #[verifier::loop_isolation(false)]
    fn check_exprs(&mut self, exprs: &Vec<Expr>)
        ensures
            final(self).spec_errors() == old(self).spec_errors() + exprs_errs(exprs@),
        decreases exprs,
    {
        let mut i: usize = 0;
        while i < exprs.len()
            invariant
                i <= exprs.len(),
                self.spec_errors() == old(self).spec_errors() + exprs_errs(exprs@.take(i as int)),
            decreases exprs.len() - i,
        {
            proof {
                assert(decreases_to!(exprs => exprs@));
                assert(decreases_to!(exprs@ => exprs@[i as int]));
            }
            self.check_expr(&exprs[i]);
            assert(exprs@.take(i + 1).drop_last() =~= exprs@.take(i as int));
            i += 1;
        }
        assert(exprs@.take(exprs.len() as int) =~= exprs@);
    }

    #[verifier::loop_isolation(false)]
    fn check_props(&mut self, props: &Vec<ObjectProp>)
        ensures
            final(self).spec_errors() == old(self).spec_errors() + props_errs(props@),
        decreases props,
    {
        let mut i: usize = 0;
        while i < props.len()
            invariant
                i <= props.len(),
                self.spec_errors() == old(self).spec_errors() + props_errs(props@.take(i as int)),
            decreases props.len() - i,
        {
            proof {
                assert(decreases_to!(props => props@));
                assert(decreases_to!(props@ => props@[i as int]));
                assert(decreases_to!(props@[i as int] => props@[i as int].value));
            }
            self.check_expr(&props[i].value);
            assert(props@.take(i + 1).drop_last() =~= props@.take(i as int));
            i += 1;
        }
        assert(props@.take(props.len() as int) =~= props@);
    }

    #[verifier::loop_isolation(false)]
    fn check_elifs(&mut self, elifs: &Vec<(Expr, Vec<Stmt>)>)
        ensures
            final(self).spec_errors() == old(self).spec_errors() + elifs_errs(elifs@),
        decreases elifs,
    {
        let mut i: usize = 0;
        while i < elifs.len()
            invariant
                i <= elifs.len(),
                self.spec_errors() == old(self).spec_errors() + elifs_errs(elifs@.take(i as int)),
            decreases elifs.len() - i,
        {
            proof {
                assert(decreases_to!(elifs => elifs@));
                assert(decreases_to!(elifs@ => elifs@[i as int]));
                assert(decreases_to!(elifs@[i as int] => elifs@[i as int].0));
                assert(decreases_to!(elifs@[i as int] => elifs@[i as int].1));
            }
            let ghost e1 = self.spec_errors();
            self.check_expr(&elifs[i].0);
            self.check_stmts(&elifs[i].1);
            assert(elifs@.take(i + 1).drop_last() =~= elifs@.take(i as int));
            assert(self.spec_errors() =~= old(self).spec_errors() + elifs_errs(elifs@.take(i + 1)));
            i += 1;
        }
        assert(elifs@.take(elifs.len() as int) =~= elifs@);
    }

    fn check_stmt(&mut self, stmt: &Stmt)
        ensures
            final(self).spec_errors() == old(self).spec_errors() + stmt_errs(*stmt),
        decreases stmt,
    {
        match stmt {
            Stmt::Expr(expr) => self.check_expr(expr),
            Stmt::Return(expr) => self.check_expr(expr),
            Stmt::If(if_stmt) => {
                self.check_expr(&if_stmt.cond);
                self.check_stmts(&if_stmt.body);
                self.check_elifs(&if_stmt.else_if);
                match &if_stmt.else_body {
                    Some(b) => self.check_stmts(b),
                    None => {}
                }
                assert(self.spec_errors() =~= old(self).spec_errors() + stmt_errs(*stmt));
            }
            Stmt::For(for_stmt) => {
                self.check_expr(&for_stmt.iter);
                self.check_stmts(&for_stmt.body);
                assert(self.spec_errors() =~= old(self).spec_errors() + stmt_errs(*stmt));
            }
            Stmt::While(while_stmt) => {
                self.check_expr(&while_stmt.cond);
                self.check_stmts(&while_stmt.body);
                assert(self.spec_errors() =~= old(self).spec_errors() + stmt_errs(*stmt));
            }
            Stmt::Assign(assign) => self.check_expr(&assign.value),
            Stmt::Var(var) => self.check_expr(&var.value),
            Stmt::Block(stmts) => self.check_stmts(stmts),
        }
    }

    fn check_expr(&mut self, expr: &Expr)
        ensures
            final(self).spec_errors() == old(self).spec_errors() + expr_errs(*expr),
        decreases expr,
    {
        match expr {
            Expr::Literal(_) => {
                assert(self.spec_errors() =~= old(self).spec_errors() + expr_errs(*expr));
            }
            Expr::Ident(ident) => {
                if ident.name.as_str().is_empty() {
                    self.push(owned("Identifier name cannot be empty"));
                }
                assert(self.spec_errors() =~= old(self).spec_errors() + expr_errs(*expr));
            }
            Expr::Call(call) => {
                self.check_expr(&call.callee);
                self.check_exprs(&call.args);
                assert(self.spec_errors() =~= old(self).spec_errors() + expr_errs(*expr));
            }
            Expr::Binary(binary) => {
                self.check_expr(&binary.left);
                self.check_expr(&binary.right);
                assert(self.spec_errors() =~= old(self).spec_errors() + expr_errs(*expr));
            }
            Expr::Unary(unary) => self.check_expr(&unary.expr),
            Expr::Member(member) => self.check_expr(&member.obj),
            Expr::Object(object) => self.check_props(&object.props),
            Expr::Array(array) => self.check_exprs(&array.elements),
            Expr::Lambda(lambda) => self.check_expr(&lambda.body),
            Expr::Ternary(cond, then_expr, else_expr) => {
                self.check_expr(cond);
                self.check_expr(then_expr);
                self.check_expr(else_expr);
                assert(self.spec_errors() =~= old(self).spec_errors() + expr_errs(*expr));
            }
            Expr::Template(template) => self.check_exprs(&template.expressions),
            Expr::Await(await_expr) => self.check_expr(&await_expr.expr),
            Expr::Spread(spread) => self.check_expr(&spread.expr),
        }
    }

    #[verifier::loop_isolation(false)]
    fn check_returns(&mut self, stmts: &Vec<Stmt>) -> (b: bool)
        ensures
            b == stmts_return(stmts@),
            final(self).spec_errors() == old(self).spec_errors(),
        decreases stmts,
    {
        let mut i: usize = 0;
        while i < stmts.len()
            invariant
                i <= stmts.len(),
                !stmts_return(stmts@.take(i as int)),
                self.spec_errors() == old(self).spec_errors(),
            decreases stmts.len() - i,
        {
            proof {
                assert(decreases_to!(stmts => stmts@));
                assert(decreases_to!(stmts@ => stmts@[i as int]));
                assert(stmts@.take(i + 1).drop_last() =~= stmts@.take(i as int));
                assert(stmts@.take(i + 1).last() == stmts@[i as int]);
            }
            match &stmts[i] {
                Stmt::Return(_) => {
                    assert(stmt_returns(stmts@[i as int]));
                    assert(stmts_return(stmts@.take(i + 1)));
                    proof { lemma_return_prefix(stmts@, i + 1); }
                    return true;
                }
                Stmt::Block(block) => {
                    if self.check_returns(block) {
                        assert(stmt_returns(stmts@[i as int]));
                        assert(stmts_return(stmts@.take(i + 1)));
                        proof { lemma_return_prefix(stmts@, i + 1); }
                        return true;
                    }
                }
                Stmt::If(if_stmt) => {
                    let then_returns = self.check_returns(&if_stmt.body);
                    let else_returns = match &if_stmt.else_body {
                        Some(else_body) => self.check_returns(else_body),
                        None => false,
                    };
                    if then_returns && else_returns {
                        assert(stmt_returns(stmts@[i as int]));
                        assert(stmts_return(stmts@.take(i + 1)));
                        proof { lemma_return_prefix(stmts@, i + 1); }
                        return true;
                    }
                }
                _ => {}
            }
            assert(!stmt_returns(stmts@[i as int]));
            assert(!stmts_return(stmts@.take(i + 1)));
            i += 1;
        }
        assert(stmts@.take(stmts.len() as int) =~= stmts@);
        false
    }
}

/// If a prefix certainly returns, so does the whole sequence.
proof fn lemma_return_prefix(s: Seq<Stmt>, n: int)
    requires
        0 <= n <= s.len(),
        stmts_return(s.take(n)),
    ensures
        stmts_return(s),
    decreases s.len() - n,
{
    if n < s.len() {
        assert(s.take(n + 1).drop_last() =~= s.take(n));
        lemma_return_prefix(s, n + 1);
    } else {
        assert(s.take(n) =~= s);
    }
}

/// Number of leading spaces of a line.
pub open spec fn leading_spaces(l: Seq<char>) -> nat
    decreases l.len(),
{
    if l.len() > 0 && l[0] == ' ' { 1 + leading_spaces(l.skip(1)) } else { 0 }
}

/// One line of the indentation check: the level after line number `i`
/// (counted from 0) and the errors it adds.
pub open spec fn indent_step(level: nat, i: nat, l: Seq<char>) -> (nat, Seq<Seq<char>>) {
    if l.len() == 0 {
        (level, seq![])
    } else {
        let indent = leading_spaces(l);
        let num = crate::text::decimal(i + 1);
        let e1: Seq<Seq<char>> = if indent % 4 != 0 {
            seq!["Line "@ + num + ": Indentation must be multiple of 4 spaces, found "@
                + crate::text::decimal(indent) + " spaces"@]
        } else {
            seq![]
        };
        let expected = level * 4;
        if indent > expected {
            if indent == expected + 4 {
                (level + 1, e1)
            } else {
                (level, e1 + seq!["Line "@ + num + ": Unexpected indentation level "@
                    + crate::text::decimal(indent) + " (expected "@ + crate::text::decimal(expected + 4) + ")"@])
            }
        } else if indent < expected {
            if indent % 4 == 0 {
                (indent / 4, e1)
            } else {
                (level, e1 + seq!["Line "@ + num + ": Invalid dedent"@])
            }
        } else {
            (level, e1)
        }
    }
}

/// The indentation check over the first `n` lines, from `level`.
pub open spec fn indent_fold(level: nat, lines: Seq<Seq<char>>, n: nat) -> (nat, Seq<Seq<char>>)
    decreases n,
{
    if n == 0 {
        (level, seq![])
    } else {
        let prev = indent_fold(level, lines, (n - 1) as nat);
        let st = indent_step(prev.0, (n - 1) as nat, lines[n - 1]);
        (st.0, prev.1 + st.1)
    }
}

pub struct IndentationChecker {
    indent_level: usize,
    errors: Vec<String>,
}

impl IndentationChecker {
    pub closed spec fn spec_level(&self) -> nat {
        self.indent_level as nat
    }

    pub closed spec fn spec_errors(&self) -> Seq<Seq<char>> {
        views(self.errors@)
    }

    pub fn new() -> (c: IndentationChecker)
        ensures
            c.spec_level() == 0,
            c.spec_errors().len() == 0,
    {
        IndentationChecker { indent_level: 0, errors: Vec::new() }
    }

    /// Checks each non-empty line of `source`: indentation must be a multiple
    /// of four spaces and may deepen by one level at a time.
    pub fn check(&mut self, source: &str) -> (r: Result<(), Vec<String>>)
        ensures
            ({
                let f = indent_fold(old(self).spec_level(), crate::text::lines(source@),
                    crate::text::lines(source@).len());
                &&& final(self).spec_level() == f.0
                &&& final(self).spec_errors() == old(self).spec_errors() + f.1
            }),
            r is Ok <==> final(self).spec_errors().len() == 0,
            r matches Err(v) ==> views(v@) == final(self).spec_errors(),
    {
        let src = crate::text::chars_of(source);
        let lines = crate::text::lines_of(src.as_slice());
        let ghost ls = crate::text::lines(source@);
        let ghost l0 = self.spec_level();
        let ghost e0 = self.spec_errors();
        let mut i: usize = 0;
        while i < lines.len()
            invariant
                i <= lines@.len() == ls.len(),
                forall|k: int| 0 <= k < lines@.len() ==> #[trigger] lines@[k]@ == ls[k],
                self.spec_level() == indent_fold(l0, ls, i as nat).0,
                self.spec_errors() == e0 + indent_fold(l0, ls, i as nat).1,
            decreases lines.len() - i,
        {
            let line = &lines[i];
            assert(line@ == ls[i as int]);
            let ghost before = self.spec_errors();
            if line.len() > 0 {
                let indent = count_leading_spaces(line.as_slice());
                let num = (i as u128) + 1;
                if indent % 4 != 0 {
                    let mut m = owned("Line ");
                    push_decimal(&mut m, num);
                    push_str(&mut m, ": Indentation must be multiple of 4 spaces, found ");
                    push_decimal(&mut m, indent as u128);
                    push_str(&mut m, " spaces");
                    self.push(m);
                }
                let expected = (self.indent_level as u128) * 4;
                if (indent as u128) > expected {
                    if (indent as u128) == expected + 4 {
                        self.indent_level = self.indent_level + 1;
                    } else {
                        let mut m = owned("Line ");
                        push_decimal(&mut m, num);
                        push_str(&mut m, ": Unexpected indentation level ");
                        push_decimal(&mut m, indent as u128);
                        push_str(&mut m, " (expected ");
                        push_decimal(&mut m, expected + 4);
                        push_str(&mut m, ")");
                        self.push(m);
                    }
                } else if (indent as u128) < expected {
                    if indent % 4 == 0 {
                        self.indent_level = indent / 4;
                    } else {
                        let mut m = owned("Line ");
                        push_decimal(&mut m, num);
                        push_str(&mut m, ": Invalid dedent");
                        self.push(m);
                    }
                }
            }
            proof {
                let st = indent_step(indent_fold(l0, ls, i as nat).0, i as nat, ls[i as int]);
                assert(self.spec_errors() =~= e0 + (indent_fold(l0, ls, i as nat).1 + st.1));
            }
            i += 1;
        }
        if !self.errors.is_empty() {
            Err(self.errors.clone())
        } else {
            Ok(())
        }
    }

    fn push(&mut self, e: String)
        ensures
            final(self).spec_errors() == old(self).spec_errors().push(e@),
            final(self).spec_level() == old(self).spec_level(),
    {
        self.errors.push(e);
        assert(views(self.errors@) =~= views(old(self).errors@).push(e@));
    }
}

fn count_leading_spaces(l: &[char]) -> (n: usize)
    ensures
        n == leading_spaces(l@),
        n <= l@.len(),
{
    let mut n: usize = 0;
    assert(l@.skip(0) =~= l@);
    while n < l.len() && l[n] == ' '
        invariant
            n <= l.len(),
            leading_spaces(l@) == n + leading_spaces(l@.skip(n as int)),
        decreases l.len() - n,
    {
        assert(l@.skip(n as int).skip(1) =~= l@.skip(n + 1));
        n += 1;
    }
    n
}

/// Checks a program's grammar with a fresh checker.
pub fn validate_grammar(program: &Program) -> (r: Result<(), Vec<String>>)
    requires
        named_components(*program),
    ensures
        ({
            let e = components_errs(program.components@) + functions_errs(program.functions@);
            &&& (r is Ok <==> e.len() == 0)
            &&& (r matches Err(v) ==> views(v@) == e)
        }),
{
    let mut checker = GrammarChecker::new();
    let r = checker.check(program);
    assert(checker.spec_errors() =~= components_errs(program.components@) + functions_errs(program.functions@));
    r
}

/// Checks the indentation of `source` with a fresh checker.
pub fn check_indentation(source: &str) -> (r: Result<(), Vec<String>>)
    ensures
        ({
            let e = indent_fold(0, crate::text::lines(source@), crate::text::lines(source@).len()).1;
            &&& (r is Ok <==> e.len() == 0)
            &&& (r matches Err(v) ==> views(v@) == e)
        }),
{
    let mut checker = IndentationChecker::new();
    let r = checker.check(source);
    assert(checker.spec_errors() =~= indent_fold(0, crate::text::lines(source@), crate::text::lines(source@).len()).1);
    r
}

} // verus!
