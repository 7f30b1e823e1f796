//! Type inference over expressions, and the checks built on it.
use vstd::prelude::*;
use crate::ast::{Program, Component, Function, Param, Signal, Stmt, Expr, LiteralValue, BinaryOp, UnaryOp, ObjectProp};
use crate::text::{owned, push_str, push_string, str_eq, views, debug_quoted, debug_str};

verus! {

/// A type, as the contracts speak of it.
pub enum Ty {
    String,
    Number,
    Integer,
    Boolean,
    Null,
    Undefined,
    Array(Box<Ty>),
    Object(Seq<(Seq<char>, Ty)>),
    Function(Seq<Ty>, Box<Ty>),
    Signal(Box<Ty>),
    Component,
    Any,
    Void,
}

/// A type of the checker. An object type holds each property once, in the
/// order in which its properties were first given.
#[derive(Debug)]
pub enum PyType {
    String,
    Number,
    Integer,
    Boolean,
    Null,
    Undefined,
    Array(Box<PyType>),
    Object(Vec<(String, PyType)>),
    Function(Vec<PyType>, Box<PyType>),
    Signal(Box<PyType>),
    Component,
    Any,
    Void,
}

pub open spec fn ty_of(t: PyType) -> Ty
    decreases t,
{
    match t {
        PyType::String => Ty::String,
        PyType::Number => Ty::Number,
        PyType::Integer => Ty::Integer,
        PyType::Boolean => Ty::Boolean,
        PyType::Null => Ty::Null,
        PyType::Undefined => Ty::Undefined,
        PyType::Array(e) => Ty::Array(Box::new(ty_of(*e))),
        PyType::Object(ps) => Ty::Object(props_of(ps@)),
        PyType::Function(ps, r) => Ty::Function(tys_of(ps@), Box::new(ty_of(*r))),
        PyType::Signal(e) => Ty::Signal(Box::new(ty_of(*e))),
        PyType::Component => Ty::Component,
        PyType::Any => Ty::Any,
        PyType::Void => Ty::Void,
    }
}

pub open spec fn tys_of(s: Seq<PyType>) -> Seq<Ty>
    decreases s,
{
    if s.len() == 0 { seq![] } else { tys_of(s.drop_last()).push(ty_of(s.last())) }
}

pub open spec fn props_of(s: Seq<(String, PyType)>) -> Seq<(Seq<char>, Ty)>
    decreases s,
{
    if s.len() == 0 { seq![] } else { props_of(s.drop_last()).push((s.last().0@, ty_of(s.last().1))) }
}

impl View for PyType {
    type V = Ty;

    open spec fn view(&self) -> Ty {
        ty_of(*self)
    }
}

pub proof fn lemma_props_of(s: Seq<(String, PyType)>)
    ensures
        props_of(s).len() == s.len(),
        forall|j: int| 0 <= j < s.len() ==> #[trigger] props_of(s)[j] == (s[j].0@, ty_of(s[j].1)),
    decreases s.len(),
{
    if s.len() > 0 {
        lemma_props_of(s.drop_last());
    }
}

pub proof fn lemma_tys_of(s: Seq<PyType>)
    ensures
        tys_of(s).len() == s.len(),
        forall|j: int| 0 <= j < s.len() ==> #[trigger] tys_of(s)[j] == ty_of(s[j]),
    decreases s.len(),
{
    if s.len() > 0 {
        lemma_tys_of(s.drop_last());
    }
}

/// The last position at which `k` is a key of `ps`.
pub open spec fn key_pos(ps: Seq<(Seq<char>, Ty)>, k: Seq<char>) -> Option<int>
    decreases ps.len(),
{
    if ps.len() == 0 {
        None
    } else if ps.last().0 == k {
        Some(ps.len() - 1)
    } else {
        key_pos(ps.drop_last(), k)
    }
}

/// The type bound to `k`, if any.
pub open spec fn key_ty(ps: Seq<(Seq<char>, Ty)>, k: Seq<char>) -> Option<Ty> {
    match key_pos(ps, k) {
        Some(i) => Some(ps[i].1),
        None => None,
    }
}

/// Binds `k` to `t`: in place where `k` is bound, else at the end.
pub open spec fn ty_insert(ps: Seq<(Seq<char>, Ty)>, k: Seq<char>, t: Ty) -> Seq<(Seq<char>, Ty)> {
    match key_pos(ps, k) {
        Some(i) => ps.update(i, (k, t)),
        None => ps.push((k, t)),
    }
}

pub proof fn lemma_key_pos(ps: Seq<(Seq<char>, Ty)>, k: Seq<char>)
    ensures
        key_pos(ps, k) matches Some(i) ==> 0 <= i < ps.len() && ps[i].0 == k,
    decreases ps.len(),
{
    if ps.len() > 0 {
        lemma_key_pos(ps.drop_last(), k);
    }
}

/// Types are equal: of one variant, with equal parts; object types are
/// equal when they have as many properties and each property of the first
/// has an equal type under its key in the second.
pub open spec fn ty_same(a: Ty, b: Ty) -> bool
    decreases a,
{
    match a {
        Ty::Array(x) => match b {
            Ty::Array(y) => ty_same(*x, *y),
            _ => false,
        },
        Ty::Object(xs) => match b {
            Ty::Object(ys) => xs.len() == ys.len() && props_within(xs, ys),
            _ => false,
        },
        Ty::Function(xs, r) => match b {
            Ty::Function(ys, q) => tys_same(xs, ys) && ty_same(*r, *q),
            _ => false,
        },
        Ty::Signal(x) => match b {
            Ty::Signal(y) => ty_same(*x, *y),
            _ => false,
        },
        _ => a == b,
    }
}

pub open spec fn tys_same(xs: Seq<Ty>, ys: Seq<Ty>) -> bool
    decreases xs,
{
    xs.len() == ys.len() && (xs.len() == 0 || (tys_same(xs.drop_last(), ys.drop_last()) && ty_same(
        xs.last(),
        ys.last(),
    )))
}

/// Each property of `xs` is in `ys` with an equal type.
pub open spec fn props_within(xs: Seq<(Seq<char>, Ty)>, ys: Seq<(Seq<char>, Ty)>) -> bool
    decreases xs,
{
    xs.len() == 0 || (props_within(xs.drop_last(), ys) && match key_ty(ys, xs.last().0) {
        Some(t) => ty_same(xs.last().1, t),
        None => false,
    })
}

/// The debug text of a type.
pub open spec fn ty_text(t: Ty) -> Seq<char>
    decreases t,
{
    match t {
        Ty::String => "String"@,
        Ty::Number => "Number"@,
        Ty::Integer => "Integer"@,
        Ty::Boolean => "Boolean"@,
        Ty::Null => "Null"@,
        Ty::Undefined => "Undefined"@,
        Ty::Array(e) => "Array("@ + ty_text(*e) + ")"@,
        Ty::Object(ps) => "Object({"@ + props_text(ps) + "})"@,
        Ty::Function(ps, r) => "Function(["@ + tys_text(ps) + "], "@ + ty_text(*r) + ")"@,
        Ty::Signal(e) => "Signal("@ + ty_text(*e) + ")"@,
        Ty::Component => "Component"@,
        Ty::Any => "Any"@,
        Ty::Void => "Void"@,
    }
}

pub open spec fn tys_text(s: Seq<Ty>) -> Seq<char>
    decreases s,
{
    if s.len() == 0 {
        seq![]
    } else if s.len() == 1 {
        ty_text(s[0])
    } else {
        tys_text(s.drop_last()) + ", "@ + ty_text(s.last())
    }
}

pub open spec fn props_text(s: Seq<(Seq<char>, Ty)>) -> Seq<char>
    decreases s,
{
    if s.len() == 0 {
        seq![]
    } else if s.len() == 1 {
        debug_quoted(s[0].0) + ": "@ + ty_text(s[0].1)
    } else {
        props_text(s.drop_last()) + ", "@ + debug_quoted(s.last().0) + ": "@ + ty_text(s.last().1)
    }
}

/// The position of the last entry of `v` with key `k`.
pub fn find_key(v: &Vec<(String, PyType)>, k: &str) -> (r: Option<usize>)
    ensures
        match r {
            Some(j) => key_pos(props_of(v@), k@) == Some(j as int),
            None => key_pos(props_of(v@), k@) is None,
        },
{
    proof {
        lemma_props_of(v@);
    }
    let mut j: usize = v.len();
    assert(props_of(v@).take(j as int) =~= props_of(v@));
    while j > 0
        invariant
            j <= v.len(),
            props_of(v@).len() == v@.len(),
            forall|m: int| 0 <= m < v@.len() ==> #[trigger] props_of(v@)[m] == (v@[m].0@, ty_of(v@[m].1)),
            key_pos(props_of(v@), k@) == key_pos(props_of(v@).take(j as int), k@),
        decreases j,
    {
        let ghost ps = props_of(v@).take(j as int);
        assert(ps.drop_last() =~= props_of(v@).take(j - 1));
        assert(ps.last() == props_of(v@)[j - 1]);
        if str_eq(v[j - 1].0.as_str(), k) {
            return Some(j - 1);
        }
        j -= 1;
    }
    assert(props_of(v@).take(0) =~= Seq::<(Seq<char>, Ty)>::empty());
    None
}

impl PyType {
    /// A deep copy.
    pub fn copy(&self) -> (r: PyType)
        ensures
            r@ == self@,
        decreases self,
    {
        match self {
            PyType::String => PyType::String,
            PyType::Number => PyType::Number,
            PyType::Integer => PyType::Integer,
            PyType::Boolean => PyType::Boolean,
            PyType::Null => PyType::Null,
            PyType::Undefined => PyType::Undefined,
            PyType::Array(e) => PyType::Array(Box::new(e.copy())),
            PyType::Object(ps) => PyType::Object(Self::copy_props(ps)),
            PyType::Function(ps, r) => PyType::Function(Self::copy_all(ps), Box::new(r.copy())),
            PyType::Signal(e) => PyType::Signal(Box::new(e.copy())),
            PyType::Component => PyType::Component,
            PyType::Any => PyType::Any,
            PyType::Void => PyType::Void,
        }
    }

    #[verifier::loop_isolation(false)]
    fn copy_props(ps: &Vec<(String, PyType)>) -> (r: Vec<(String, PyType)>)
        ensures
            props_of(r@) == props_of(ps@),
        decreases ps,
    {
        let mut r: Vec<(String, PyType)> = Vec::new();
        let mut i: usize = 0;
        while i < ps.len()
            invariant
                i <= ps.len(),
                props_of(r@) == props_of(ps@.take(i as int)),
            decreases ps.len() - i,
        {
            proof {
                assert(decreases_to!(ps => ps@));
                assert(decreases_to!(ps@ => ps@[i as int]));
                assert(decreases_to!(ps@[i as int] => ps@[i as int].1));
            }
            let t = ps[i].1.copy();
            let k = ps[i].0.clone();
            let ghost r0 = r@;
            r.push((k, t));
            assert(r@.drop_last() =~= r0);
            assert(ps@.take(i + 1).drop_last() =~= ps@.take(i as int));
            i += 1;
        }
        assert(ps@.take(ps.len() as int) =~= ps@);
        r
    }

    #[verifier::loop_isolation(false)]
    fn copy_all(ps: &Vec<PyType>) -> (r: Vec<PyType>)
        ensures
            tys_of(r@) == tys_of(ps@),
        decreases ps,
    {
        let mut r: Vec<PyType> = Vec::new();
        let mut i: usize = 0;
        while i < ps.len()
            invariant
                i <= ps.len(),
                tys_of(r@) == tys_of(ps@.take(i as int)),
            decreases ps.len() - i,
        {
            proof {
                assert(decreases_to!(ps => ps@));
                assert(decreases_to!(ps@ => ps@[i as int]));
            }
            let t = ps[i].copy();
            let ghost r0 = r@;
            r.push(t);
            assert(r@.drop_last() =~= r0);
            assert(ps@.take(i + 1).drop_last() =~= ps@.take(i as int));
            i += 1;
        }
        assert(ps@.take(ps.len() as int) =~= ps@);
        r
    }
}

impl PyType {

    /// Equality of types: `ty_same` on their views.
    pub fn same(&self, other: &PyType) -> (b: bool)
        ensures
            b == ty_same(self@, other@),
        decreases self,
    {
        match self {
            PyType::Array(x) => match other {
                PyType::Array(y) => x.same(y),
                _ => false,
            },
            PyType::Object(xs) => match other {
                PyType::Object(ys) => {
                    proof {
                        lemma_props_of(xs@);
                        lemma_props_of(ys@);
                    }
                    xs.len() == ys.len() && Self::props_within_exec(xs, ys)
                },
                _ => false,
            },
            PyType::Function(xs, r) => match other {
                PyType::Function(ys, q) => Self::all_same(xs, ys) && r.same(q),
                _ => false,
            },
            PyType::Signal(x) => match other {
                PyType::Signal(y) => x.same(y),
                _ => false,
            },
            PyType::String => matches!(other, PyType::String),
            PyType::Number => matches!(other, PyType::Number),
            PyType::Integer => matches!(other, PyType::Integer),
            PyType::Boolean => matches!(other, PyType::Boolean),
            PyType::Null => matches!(other, PyType::Null),
            PyType::Undefined => matches!(other, PyType::Undefined),
            PyType::Component => matches!(other, PyType::Component),
            PyType::Any => matches!(other, PyType::Any),
            PyType::Void => matches!(other, PyType::Void),
        }
    }

    #[verifier::loop_isolation(false)]
    fn props_within_exec(xs: &Vec<(String, PyType)>, ys: &Vec<(String, PyType)>) -> (b: bool)
        ensures
            b == props_within(props_of(xs@), props_of(ys@)),
        decreases xs,
    {
        proof {
            lemma_props_of(xs@);
            lemma_props_of(ys@);
        }
        let mut i: usize = 0;
        while i < xs.len()
            invariant
                i <= xs.len(),
                props_within(props_of(xs@.take(i as int)), props_of(ys@)),
            decreases xs.len() - i,
        {
            proof {
                assert(decreases_to!(xs => xs@));
                assert(decreases_to!(xs@ => xs@[i as int]));
                assert(decreases_to!(xs@[i as int] => xs@[i as int].1));
                assert(xs@.take(i + 1).drop_last() =~= xs@.take(i as int));
                lemma_props_of(xs@.take(i + 1));
                assert(props_of(xs@.take(i + 1)).last() == (xs@[i as int].0@, ty_of(xs@[i as int].1)));
            }
            match find_key(ys, xs[i].0.as_str()) {
                Some(j) => {
                    proof {
                        lemma_key_pos(props_of(ys@), xs@[i as int].0@);
                    }
                    if !xs[i].1.same(&ys[j].1) {
                        proof {
                            lemma_props_within_prefix(props_of(xs@), props_of(ys@), i + 1);
                            assert(props_of(xs@).take(i + 1) =~= props_of(xs@.take(i + 1)));
                        }
                        return false;
                    }
                    proof {
                        let t = props_of(xs@.take(i + 1));
                        assert(t.drop_last() =~= props_of(xs@.take(i as int)));
                        assert(key_ty(props_of(ys@), t.last().0) == Some(ty_of(ys@[j as int].1)));
                    }
                }
                None => {
                    proof {
                        lemma_props_within_prefix(props_of(xs@), props_of(ys@), i + 1);
                        assert(props_of(xs@).take(i + 1) =~= props_of(xs@.take(i + 1)));
                    }
                    return false;
                }
            }
            i += 1;
        }
        assert(xs@.take(xs.len() as int) =~= xs@);
        true
    }

    #[verifier::loop_isolation(false)]
    fn all_same(xs: &Vec<PyType>, ys: &Vec<PyType>) -> (b: bool)
        ensures
            b == tys_same(tys_of(xs@), tys_of(ys@)),
        decreases xs,
    {
        proof {
            lemma_tys_of(xs@);
            lemma_tys_of(ys@);
        }
        if xs.len() != ys.len() {
            return false;
        }
        let mut i: usize = 0;
        while i < xs.len()
            invariant
                i <= xs.len(),
                xs.len() == ys.len(),
                tys_same(tys_of(xs@.take(i as int)), tys_of(ys@.take(i as int))),
            decreases xs.len() - i,
        {
            proof {
                assert(decreases_to!(xs => xs@));
                assert(decreases_to!(xs@ => xs@[i as int]));
                assert(xs@.take(i + 1).drop_last() =~= xs@.take(i as int));
                assert(ys@.take(i + 1).drop_last() =~= ys@.take(i as int));
                lemma_tys_of(xs@.take(i + 1));
                lemma_tys_of(ys@.take(i + 1));
            }
            if !xs[i].same(&ys[i]) {
                proof {
                    lemma_tys_same_prefix(tys_of(xs@), tys_of(ys@), i + 1);
                    assert(tys_of(xs@).take(i + 1) =~= tys_of(xs@.take(i + 1)));
                    assert(tys_of(ys@).take(i + 1) =~= tys_of(ys@.take(i + 1)));
                }
                return false;
            }
            proof {
                let t = tys_of(xs@.take(i + 1));
                let u = tys_of(ys@.take(i + 1));
                assert(t.drop_last() =~= tys_of(xs@.take(i as int)));
                assert(u.drop_last() =~= tys_of(ys@.take(i as int)));
            }
            i += 1;
        }
        assert(xs@.take(xs.len() as int) =~= xs@);
        assert(ys@.take(ys.len() as int) =~= ys@);
        true
    }

    /// Appends the debug text of this type to `out`.
    pub fn write_text(&self, out: &mut String)
        ensures
            final(out)@ == old(out)@ + ty_text(self@),
        decreases self,
    {
        match self {
            PyType::String => push_str(out, "String"),
            PyType::Number => push_str(out, "Number"),
            PyType::Integer => push_str(out, "Integer"),
            PyType::Boolean => push_str(out, "Boolean"),
            PyType::Null => push_str(out, "Null"),
            PyType::Undefined => push_str(out, "Undefined"),
            PyType::Array(e) => {
                push_str(out, "Array(");
                e.write_text(out);
                push_str(out, ")");
                assert(out@ =~= old(out)@ + ty_text(self@));
            }
            PyType::Object(ps) => {
                push_str(out, "Object({");
                Self::write_props(ps, out);
                push_str(out, "})");
                assert(out@ =~= old(out)@ + ty_text(self@));
            }
            PyType::Function(ps, r) => {
                push_str(out, "Function([");
                Self::write_all(ps, out);
                push_str(out, "], ");
                r.write_text(out);
                push_str(out, ")");
                assert(out@ =~= old(out)@ + ty_text(self@));
            }
            PyType::Signal(e) => {
                push_str(out, "Signal(");
                e.write_text(out);
                push_str(out, ")");
                assert(out@ =~= old(out)@ + ty_text(self@));
            }
            PyType::Component => push_str(out, "Component"),
            PyType::Any => push_str(out, "Any"),
            PyType::Void => push_str(out, "Void"),
        }
    }

    #[verifier::loop_isolation(false)]
    fn write_props(ps: &Vec<(String, PyType)>, out: &mut String)
        ensures
            final(out)@ == old(out)@ + props_text(props_of(ps@)),
        decreases ps,
    {
        let mut i: usize = 0;
        while i < ps.len()
            invariant
                i <= ps.len(),
                out@ == old(out)@ + props_text(props_of(ps@.take(i as int))),
            decreases ps.len() - i,
        {
            proof {
                assert(decreases_to!(ps => ps@));
                assert(decreases_to!(ps@ => ps@[i as int]));
                assert(decreases_to!(ps@[i as int] => ps@[i as int].1));
                assert(ps@.take(i + 1).drop_last() =~= ps@.take(i as int));
                lemma_props_of(ps@.take(i as int));
                lemma_props_of(ps@.take(i + 1));
            }
            let ghost before = out@;
            if i > 0 {
                push_str(out, ", ");
            }
            let k = debug_str(ps[i].0.as_str());
            push_string(out, &k);
            push_str(out, ": ");
            ps[i].1.write_text(out);
            proof {
                let t = props_of(ps@.take(i + 1));
                assert(t.drop_last() =~= props_of(ps@.take(i as int)));
                if i == 0 {
                    assert(out@ =~= old(out)@ + props_text(t));
                } else {
                    assert(out@ =~= old(out)@ + props_text(t));
                }
            }
            i += 1;
        }
        assert(ps@.take(ps.len() as int) =~= ps@);
    }

    #[verifier::loop_isolation(false)]
    fn write_all(ps: &Vec<PyType>, out: &mut String)
        ensures
            final(out)@ == old(out)@ + tys_text(tys_of(ps@)),
        decreases ps,
    {
        let mut i: usize = 0;
        while i < ps.len()
            invariant
                i <= ps.len(),
                out@ == old(out)@ + tys_text(tys_of(ps@.take(i as int))),
            decreases ps.len() - i,
        {
            proof {
                assert(decreases_to!(ps => ps@));
                assert(decreases_to!(ps@ => ps@[i as int]));
                assert(ps@.take(i + 1).drop_last() =~= ps@.take(i as int));
                lemma_tys_of(ps@.take(i as int));
                lemma_tys_of(ps@.take(i + 1));
            }
            if i > 0 {
                push_str(out, ", ");
            }
            ps[i].write_text(out);
            proof {
                let t = tys_of(ps@.take(i + 1));
                assert(t.drop_last() =~= tys_of(ps@.take(i as int)));
                assert(out@ =~= old(out)@ + tys_text(t));
            }
            i += 1;
        }
        assert(ps@.take(ps.len() as int) =~= ps@);
    }

    /// The debug text of this type.
    pub fn to_text(&self) -> (s: String)
        ensures
            s@ == ty_text(self@),
    {
        let mut s = String::new();
        self.write_text(&mut s);
        s
    }
}

/// A failing check of a prefix fails the whole.
proof fn lemma_props_within_prefix(xs: Seq<(Seq<char>, Ty)>, ys: Seq<(Seq<char>, Ty)>, n: int)
    requires
        0 <= n <= xs.len(),
        !props_within(xs.take(n), ys),
    ensures
        !props_within(xs, ys),
    decreases xs.len() - n,
{
    if n < xs.len() {
        assert(xs.take(n + 1).drop_last() =~= xs.take(n));
        lemma_props_within_prefix(xs, ys, n + 1);
    } else {
        assert(xs.take(n) =~= xs);
    }
}

proof fn lemma_tys_same_prefix(xs: Seq<Ty>, ys: Seq<Ty>, n: int)
    requires
        0 <= n <= xs.len(),
        xs.len() == ys.len(),
        !tys_same(xs.take(n), ys.take(n)),
    ensures
        !tys_same(xs, ys),
    decreases xs.len() - n,
{
    if n < xs.len() {
        assert(xs.take(n + 1).drop_last() =~= xs.take(n));
        assert(ys.take(n + 1).drop_last() =~= ys.take(n));
        lemma_tys_same_prefix(xs, ys, n + 1);
    } else {
        assert(xs.take(n) =~= xs);
        assert(ys.take(n) =~= ys);
    }
}


/// The type of a literal.
pub open spec fn lit_ty(v: LiteralValue) -> Ty {
    match v {
        LiteralValue::String(_) => Ty::String,
        LiteralValue::Number(_) => Ty::Number,
        LiteralValue::Integer(_) => Ty::Integer,
        LiteralValue::Boolean(_) => Ty::Boolean,
        LiteralValue::Null => Ty::Null,
        LiteralValue::Undefined => Ty::Undefined,
        LiteralValue::BigInt(_) => Ty::Number,
    }
}

/// The type of a binary expression from its operand types: `+` gives a
/// string when either side is a string; comparisons and logic give a
/// boolean; the rest give a number.
pub open spec fn bin_ty(op: BinaryOp, l: Ty, r: Ty) -> Ty {
    match op {
        BinaryOp::Add => if l is String || r is String { Ty::String } else { Ty::Number },
        BinaryOp::Eq | BinaryOp::NotEq | BinaryOp::Lt | BinaryOp::Gt | BinaryOp::LtEq | BinaryOp::GtEq
        | BinaryOp::And | BinaryOp::Or => Ty::Boolean,
        _ => Ty::Number,
    }
}

/// Whether `e` is a comparison: `==`, `!=`, `<`, `>`, `<=` or `>=` of two
/// operands.
pub open spec fn is_comparison(e: Expr) -> bool {
    e matches Expr::Binary(b) && (b.op is Eq || b.op is NotEq || b.op is Lt || b.op is Gt || b.op is LtEq
        || b.op is GtEq)
}

/// A comparison is a boolean, whatever its operands and bindings.
pub proof fn lemma_comparison_is_boolean(env: Seq<(Seq<char>, Ty)>, e: Expr)
    requires
        is_comparison(e),
    ensures
        infer(env, e) == Ty::Boolean,
{
}

/// The other operators: `and` and `or` and `not` give a boolean; `-`,
/// `*`, `/` and `%` and negation give a number; `+` gives a string when
/// either side is a string and a number otherwise.
pub proof fn lemma_operator_types(env: Seq<(Seq<char>, Ty)>, e: Expr)
    ensures
        e matches Expr::Binary(b) ==> {
            &&& (b.op is And || b.op is Or) ==> infer(env, e) == Ty::Boolean
            &&& (b.op is Sub || b.op is Mul || b.op is Div || b.op is Mod) ==> infer(env, e) == Ty::Number
            &&& b.op is Add ==> infer(env, e) == if infer(env, *b.left) is String || infer(env, *b.right) is String {
                Ty::String
            } else {
                Ty::Number
            }
        },
        e matches Expr::Unary(u) ==> {
            &&& u.op is Not ==> infer(env, e) == Ty::Boolean
            &&& u.op is Neg ==> infer(env, e) == Ty::Number
        },
{
}

/// An `if` whose condition is a comparison adds no type error: checking it
/// is checking its body.
pub proof fn lemma_comparison_condition_passes(st: (Seq<(Seq<char>, Ty)>, Seq<Seq<char>>), s: Stmt)
    requires
        s is If,
        is_comparison(s->If_0.cond),
    ensures
        stmt_tc(st, s) == stmts_tc(st, s->If_0.body@),
{
    lemma_comparison_is_boolean(st.0, s->If_0.cond);
}

/// The type inferred for `e` where names are bound as in `env`.
pub open spec fn infer(env: Seq<(Seq<char>, Ty)>, e: Expr) -> Ty
    decreases e,
{
    match e {
        Expr::Literal(l) => lit_ty(l.value),
        Expr::Ident(i) => match key_ty(env, i.name@) {
            Some(t) => t,
            None => Ty::Any,
        },
        Expr::Binary(b) => bin_ty(b.op, infer(env, *b.left), infer(env, *b.right)),
        Expr::Unary(u) => match u.op {
            UnaryOp::Not => Ty::Boolean,
            UnaryOp::Neg => Ty::Number,
            _ => Ty::Any,
        },
        Expr::Call(c) => match infer(env, *c.callee) {
            Ty::Function(_, r) => *r,
            _ => Ty::Any,
        },
        Expr::Array(a) => Ty::Array(
            Box::new(if a.elements@.len() > 0 { infer(env, a.elements@[0]) } else { Ty::Any }),
        ),
        Expr::Object(o) => Ty::Object(props_ty(env, o.props@)),
        Expr::Lambda(l) => Ty::Function(seq![Ty::Any], Box::new(infer(env, *l.body))),
        Expr::Ternary(_, t, f) => if ty_same(infer(env, *t), infer(env, *f)) {
            infer(env, *t)
        } else {
            Ty::Any
        },
        _ => Ty::Any,
    }
}

/// The property types of an object literal; a repeated key keeps its first
/// place and takes the last type.
pub open spec fn props_ty(env: Seq<(Seq<char>, Ty)>, s: Seq<ObjectProp>) -> Seq<(Seq<char>, Ty)>
    decreases s,
{
    if s.len() == 0 {
        seq![]
    } else {
        ty_insert(props_ty(env, s.drop_last()), s.last().key@, infer(env, s.last().value))
    }
}

/// The type a parameter annotation names.
pub open spec fn hint_ty(t: Seq<char>) -> Ty {
    if t == "str"@ {
        Ty::String
    } else if t == "int"@ {
        Ty::Integer
    } else if t == "float"@ {
        Ty::Number
    } else if t == "bool"@ {
        Ty::Boolean
    } else if t == "None"@ {
        Ty::Null
    } else {
        Ty::Any
    }
}

/// The error for an `if` whose condition is not boolean.
pub open spec fn if_msg(t: Ty) -> Seq<char> {
    "If condition must be boolean, got "@ + ty_text(t)
}

/// What checking a statement does to the bindings and the errors: an `if`
/// checks its condition and its body (not its other branches); an
/// assignment or declaration binds the name to the value's type.
pub open spec fn stmt_tc(st: (Seq<(Seq<char>, Ty)>, Seq<Seq<char>>), s: Stmt) -> (Seq<(Seq<char>, Ty)>, Seq<Seq<char>>)
    decreases s,
{
    match s {
        Stmt::If(i) => {
            let c = infer(st.0, i.cond);
            stmts_tc(if c is Boolean { st } else { (st.0, st.1.push(if_msg(c))) }, i.body@)
        },
        Stmt::Assign(a) => (ty_insert(st.0, a.target@, infer(st.0, a.value)), st.1),
        Stmt::Var(v) => (ty_insert(st.0, v.name@, infer(st.0, v.value)), st.1),
        _ => st,
    }
}

pub open spec fn stmts_tc(st: (Seq<(Seq<char>, Ty)>, Seq<Seq<char>>), s: Seq<Stmt>) -> (Seq<(Seq<char>, Ty)>, Seq<Seq<char>>)
    decreases s,
{
    if s.len() == 0 { st } else { stmt_tc(stmts_tc(st, s.drop_last()), s.last()) }
}

/// Binds each signal to the type of its initial value, in order.
pub open spec fn signals_tc(env: Seq<(Seq<char>, Ty)>, s: Seq<Signal>) -> Seq<(Seq<char>, Ty)>
    decreases s.len(),
{
    if s.len() == 0 {
        env
    } else {
        let e = signals_tc(env, s.drop_last());
        ty_insert(e, s.last().name@, infer(e, s.last().initial))
    }
}

/// Binds each annotated parameter to the type its annotation names.
pub open spec fn params_tc(env: Seq<(Seq<char>, Ty)>, s: Seq<Param>) -> Seq<(Seq<char>, Ty)>
    decreases s.len(),
{
    if s.len() == 0 {
        env
    } else {
        let e = params_tc(env, s.drop_last());
        match s.last().type_hint {
            Some(h) => ty_insert(e, s.last().name@, hint_ty(h@)),
            None => e,
        }
    }
}

pub open spec fn component_tc(st: (Seq<(Seq<char>, Ty)>, Seq<Seq<char>>), c: Component) -> (Seq<(Seq<char>, Ty)>, Seq<Seq<char>>) {
    stmts_tc((signals_tc(st.0, c.signals@), st.1), c.body@)
}

pub open spec fn function_tc(st: (Seq<(Seq<char>, Ty)>, Seq<Seq<char>>), f: Function) -> (Seq<(Seq<char>, Ty)>, Seq<Seq<char>>) {
    stmts_tc((params_tc(st.0, f.params@), st.1), f.body@)
}

pub open spec fn components_tc(st: (Seq<(Seq<char>, Ty)>, Seq<Seq<char>>), s: Seq<Component>) -> (Seq<(Seq<char>, Ty)>, Seq<Seq<char>>)
    decreases s.len(),
{
    if s.len() == 0 { st } else { component_tc(components_tc(st, s.drop_last()), s.last()) }
}

pub open spec fn functions_tc(st: (Seq<(Seq<char>, Ty)>, Seq<Seq<char>>), s: Seq<Function>) -> (Seq<(Seq<char>, Ty)>, Seq<Seq<char>>)
    decreases s.len(),
{
    if s.len() == 0 { st } else { function_tc(functions_tc(st, s.drop_last()), s.last()) }
}

/// Checking a program: every component, then every function.
pub open spec fn program_tc(st: (Seq<(Seq<char>, Ty)>, Seq<Seq<char>>), p: Program) -> (Seq<(Seq<char>, Ty)>, Seq<Seq<char>>) {
    functions_tc(components_tc(st, p.components@), p.functions@)
}

/// What `get_type` reports of an expression.
pub struct TypeInfo {
    pub ty_name: String,
    pub nullable: bool,
    pub optional: bool,
}

/// Infers types and reports `if` conditions that are not boolean.
pub struct TypeChecker {
    types: Vec<(String, PyType)>,
    errors: Vec<String>,
    current_component: Option<String>,
}

/// Binds `k` to `t` in `v`.
fn bind(v: &mut Vec<(String, PyType)>, k: &str, t: PyType)
    ensures
        props_of(final(v)@) == ty_insert(props_of(old(v)@), k@, t@),
{
    proof {
        lemma_props_of(v@);
    }
    match find_key(v, k) {
        Some(j) => {
            proof {
                lemma_key_pos(props_of(v@), k@);
            }
            let ghost v0 = v@;
            v.set(j, (owned(k), t));
            proof {
                lemma_props_of(v@);
                assert(props_of(v@) =~= props_of(v0).update(j as int, (k@, t@)));
            }
        }
        None => {
            let ghost v0 = v@;
            v.push((owned(k), t));
            assert(v@.drop_last() =~= v0);
        }
    }
}

impl TypeChecker {
    /// The names bound so far and their types.
    pub closed spec fn env(&self) -> Seq<(Seq<char>, Ty)> {
        props_of(self.types@)
    }

    pub closed spec fn errs(&self) -> Seq<Seq<char>> {
        views(self.errors@)
    }

    pub open spec fn state(&self) -> (Seq<(Seq<char>, Ty)>, Seq<Seq<char>>) {
        (self.env(), self.errs())
    }

    pub fn new() -> (t: TypeChecker)
        ensures
            t.env().len() == 0,
            t.errs().len() == 0,
    {
        TypeChecker { types: Vec::new(), errors: Vec::new(), current_component: None }
    }

    /// Checks every component, then every function.
    pub fn check(&mut self, program: &Program)
        ensures
            final(self).state() == program_tc(old(self).state(), *program),
    {
        let mut i: usize = 0;
        while i < program.components.len()
            invariant
                i <= program.components.len(),
                self.state() == components_tc(old(self).state(), program.components@.take(i as int)),
            decreases program.components.len() - i,
        {
            self.current_component = Some(program.components[i].name.clone());
            self.check_component(&program.components[i]);
            assert(program.components@.take(i + 1).drop_last() =~= program.components@.take(i as int));
            i += 1;
        }
        assert(program.components@.take(program.components.len() as int) =~= program.components@);
        let ghost mid = self.state();
        let mut j: usize = 0;
        while j < program.functions.len()
            invariant
                j <= program.functions.len(),
                self.state() == functions_tc(mid, program.functions@.take(j as int)),
            decreases program.functions.len() - j,
        {
            self.check_function(&program.functions[j]);
            assert(program.functions@.take(j + 1).drop_last() =~= program.functions@.take(j as int));
            j += 1;
        }
        assert(program.functions@.take(program.functions.len() as int) =~= program.functions@);
    }

    fn check_component(&mut self, component: &Component)
        ensures
            final(self).state() == component_tc(old(self).state(), *component),
    {
        let mut i: usize = 0;
        while i < component.signals.len()
            invariant
                i <= component.signals.len(),
                self.errs() == old(self).errs(),
                self.env() == signals_tc(old(self).env(), component.signals@.take(i as int)),
            decreases component.signals.len() - i,
        {
            let t = self.infer_type(&component.signals[i].initial);
            bind(&mut self.types, component.signals[i].name.as_str(), t);
            assert(component.signals@.take(i + 1).drop_last() =~= component.signals@.take(i as int));
            i += 1;
        }
        assert(component.signals@.take(component.signals.len() as int) =~= component.signals@);
        self.check_stmts(&component.body);
    }

    fn check_function(&mut self, function: &Function)
        ensures
            final(self).state() == function_tc(old(self).state(), *function),
    {
        let mut i: usize = 0;
        while i < function.params.len()
            invariant
                i <= function.params.len(),
                self.errs() == old(self).errs(),
                self.env() == params_tc(old(self).env(), function.params@.take(i as int)),
            decreases function.params.len() - i,
        {
            match &function.params[i].type_hint {
                Some(hint) => {
                    let t = self.type_from_string(hint.as_str());
                    bind(&mut self.types, function.params[i].name.as_str(), t);
                }
                None => {}
            }
            assert(function.params@.take(i + 1).drop_last() =~= function.params@.take(i as int));
            i += 1;
        }
        assert(function.params@.take(function.params.len() as int) =~= function.params@);
        self.check_stmts(&function.body);
    }

    #[verifier::loop_isolation(false)]
    fn check_stmts(&mut self, stmts: &Vec<Stmt>)
        ensures
            final(self).state() == stmts_tc(old(self).state(), stmts@),
        decreases stmts,
    {
        let mut i: usize = 0;
        while i < stmts.len()
            invariant
                i <= stmts.len(),
                self.state() == stmts_tc(old(self).state(), stmts@.take(i as int)),
            decreases stmts.len() - i,
        {
            proof {
                assert(decreases_to!(stmts => stmts@));
                assert(decreases_to!(stmts@ => stmts@[i as int]));
            }
            self.check_stmt(&stmts[i]);
            assert(stmts@.take(i + 1).drop_last() =~= stmts@.take(i as int));
            i += 1;
        }
        assert(stmts@.take(stmts.len() as int) =~= stmts@);
    }

    fn check_stmt(&mut self, stmt: &Stmt)
        ensures
            final(self).state() == stmt_tc(old(self).state(), *stmt),
        decreases stmt,
    {
        match stmt {
            Stmt::If(if_stmt) => {
                let cond_type = self.infer_type(&if_stmt.cond);
                if !matches!(cond_type, PyType::Boolean) {
                    let mut m = owned("If condition must be boolean, got ");
                    cond_type.write_text(&mut m);
                    let ghost e0 = self.errors@;
                    self.errors.push(m);
                    assert(views(self.errors@) =~= views(e0).push(m@));
                }
                self.check_stmts(&if_stmt.body);
            }
            Stmt::Assign(assign) => {
                let t = self.infer_type(&assign.value);
                bind(&mut self.types, assign.target.as_str(), t);
            }
            Stmt::Var(var) => {
                let t = self.infer_type(&var.value);
                bind(&mut self.types, var.name.as_str(), t);
            }
            _ => {}
        }
    }

    /// The type of `expr` under the names bound so far.
    pub fn infer_type(&self, expr: &Expr) -> (t: PyType)
        ensures
            t@ == infer(self.env(), *expr),
        decreases expr,
    {
        match expr {
            Expr::Literal(lit) => {
                let r = match &lit.value {
                    LiteralValue::String(_) => PyType::String,
                    LiteralValue::Number(_) => PyType::Number,
                    LiteralValue::Integer(_) => PyType::Integer,
                    LiteralValue::Boolean(_) => PyType::Boolean,
                    LiteralValue::Null => PyType::Null,
                    LiteralValue::Undefined => PyType::Undefined,
                    LiteralValue::BigInt(_) => PyType::Number,
                };
                r
            }
            Expr::Ident(ident) => {
                proof {
                    lemma_props_of(self.types@);
                }
                match find_key(&self.types, ident.name.as_str()) {
                    Some(j) => {
                        proof {
                            lemma_key_pos(props_of(self.types@), ident.name@);
                        }
                        let r = self.types[j].1.copy();
                        r
                    }
                    None => PyType::Any,
                }
            }
            Expr::Binary(binary) => {
                let left = self.infer_type(&binary.left);
                let right = self.infer_type(&binary.right);
                let r = match binary.op {
                    BinaryOp::Add => {
                        if matches!(left, PyType::String) || matches!(right, PyType::String) {
                            PyType::String
                        } else {
                            PyType::Number
                        }
                    }
                    BinaryOp::Eq | BinaryOp::NotEq => PyType::Boolean,
                    BinaryOp::Lt | BinaryOp::Gt | BinaryOp::LtEq | BinaryOp::GtEq => PyType::Boolean,
                    BinaryOp::And | BinaryOp::Or => PyType::Boolean,
                    _ => PyType::Number,
                };
                r
            }
            Expr::Unary(unary) => match unary.op {
                UnaryOp::Not => PyType::Boolean,
                UnaryOp::Neg => PyType::Number,
                _ => PyType::Any,
            },
            Expr::Call(call) => {
                let callee_type = self.infer_type(&call.callee);
                let r = match callee_type {
                    PyType::Function(_, ret) => *ret,
                    _ => PyType::Any,
                };
                r
            }
            Expr::Array(array) => {
                if array.elements.len() > 0 {
                    proof {
                        assert(decreases_to!(array.elements => array.elements@));
                        assert(decreases_to!(array.elements@ => array.elements@[0]));
                    }
                    let elem_type = self.infer_type(&array.elements[0]);
                    let r = PyType::Array(Box::new(elem_type));
                    r
                } else {
                    let r = PyType::Array(Box::new(PyType::Any));
                    assert(ty_of(PyType::Any) == Ty::Any);
                    assert(array.elements@.len() == 0);
                    assert(r@ == Ty::Array(Box::new(Ty::Any)));
                    r
                }
            }
            Expr::Object(object) => {
                let r = PyType::Object(self.infer_props(&object.props));
                r
            }
            Expr::Lambda(lambda) => {
                let ret_type = self.infer_type(&lambda.body);
                let mut params: Vec<PyType> = Vec::new();
                params.push(PyType::Any);
                proof {
                    assert(params@.len() == 1);
                    assert(params@.drop_last() =~= Seq::<PyType>::empty());
                    assert(tys_of(Seq::<PyType>::empty()) == Seq::<Ty>::empty());
                    assert(params@.last() == PyType::Any);
                    assert(tys_of(params@) == tys_of(params@.drop_last()).push(ty_of(params@.last())));
                    assert(tys_of(params@) =~= seq![Ty::Any]);
                }
                let r = PyType::Function(params, Box::new(ret_type));
                r
            }
            Expr::Ternary(_, then_expr, else_expr) => {
                let then_type = self.infer_type(then_expr);
                let else_type = self.infer_type(else_expr);
                if then_type.same(&else_type) {
                    then_type
                } else {
                    PyType::Any
                }
            }
            _ => PyType::Any,
        }
    }

    #[verifier::loop_isolation(false)]
    fn infer_props(&self, props: &Vec<ObjectProp>) -> (r: Vec<(String, PyType)>)
        ensures
            props_of(r@) == props_ty(self.env(), props@),
        decreases props,
    {
        let mut r: Vec<(String, PyType)> = Vec::new();
        let mut i: usize = 0;
        while i < props.len()
            invariant
                i <= props.len(),
                props_of(r@) == props_ty(self.env(), props@.take(i as int)),
            decreases props.len() - i,
        {
            proof {
                assert(decreases_to!(props => props@));
                assert(decreases_to!(props@ => props@[i as int]));
                assert(decreases_to!(props@[i as int] => props@[i as int].value));
            }
            let t = self.infer_type(&props[i].value);
            bind(&mut r, props[i].key.as_str(), t);
            assert(props@.take(i + 1).drop_last() =~= props@.take(i as int));
            i += 1;
        }
        assert(props@.take(props.len() as int) =~= props@);
        r
    }

    fn type_from_string(&self, type_str: &str) -> (t: PyType)
        ensures
            t@ == hint_ty(type_str@),
    {
        if str_eq(type_str, "str") {
            PyType::String
        } else if str_eq(type_str, "int") {
            PyType::Integer
        } else if str_eq(type_str, "float") {
            PyType::Number
        } else if str_eq(type_str, "bool") {
            PyType::Boolean
        } else if str_eq(type_str, "None") {
            PyType::Null
        } else {
            PyType::Any
        }
    }

    pub fn has_errors(&self) -> (b: bool)
        ensures
            b == (self.errs().len() > 0),
    {
        self.errors.len() > 0
    }

    pub fn get_errors(&self) -> (v: Vec<String>)
        ensures
            views(v@) == self.errs(),
    {
        let v = self.errors.clone();
        assert(views(v@) =~= self.errs());
        v
    }

    /// Whether no error was found.
    pub fn validate(&self, _program: &Program) -> (b: bool)
        ensures
            b == (self.errs().len() == 0),
    {
        !self.has_errors()
    }

    /// The inferred type of `expr`, in debug form.
    pub fn get_type(&self, expr: &Expr) -> (r: Option<TypeInfo>)
        ensures
            r matches Some(i) && i.ty_name@ == ty_text(infer(self.env(), *expr)) && !i.nullable
                && !i.optional,
    {
        let t = self.infer_type(expr);
        Some(TypeInfo { ty_name: t.to_text(), nullable: false, optional: false })
    }
}

} // verus!
