//! The debug text of expressions: the text `{:?}` gives for them, written
//! out so that contracts can speak of it.
use vstd::prelude::*;
use super::{Expr, LiteralExpr, LiteralValue, BinaryOp, UnaryOp, ObjectProp, TemplateElement};
use crate::text::{push_str, push_string, push_char, push_decimal, decimal, debug_quoted, debug_str};

verus! {

pub open spec fn bool_text(b: bool) -> Seq<char> {
    if b { "true"@ } else { "false"@ }
}

/// The decimal text of an integer, with a minus sign when negative.
pub open spec fn int_text(i: int) -> Seq<char> {
    if i < 0 { seq!['-'] + decimal((-i) as nat) } else { decimal(i as nat) }
}

pub open spec fn bin_op_name(op: BinaryOp) -> Seq<char> {
    match op {
        BinaryOp::Add => "Add"@,
        BinaryOp::Sub => "Sub"@,
        BinaryOp::Mul => "Mul"@,
        BinaryOp::Div => "Div"@,
        BinaryOp::Mod => "Mod"@,
        BinaryOp::Eq => "Eq"@,
        BinaryOp::NotEq => "NotEq"@,
        BinaryOp::Lt => "Lt"@,
        BinaryOp::Gt => "Gt"@,
        BinaryOp::LtEq => "LtEq"@,
        BinaryOp::GtEq => "GtEq"@,
        BinaryOp::And => "And"@,
        BinaryOp::Or => "Or"@,
        BinaryOp::Nullish => "Nullish"@,
    }
}

pub open spec fn un_op_name(op: UnaryOp) -> Seq<char> {
    match op {
        UnaryOp::Not => "Not"@,
        UnaryOp::Neg => "Neg"@,
        UnaryOp::Typeof => "Typeof"@,
        UnaryOp::Void => "Void"@,
    }
}

pub open spec fn value_debug(v: LiteralValue) -> Seq<char> {
    match v {
        LiteralValue::String(s) => "String("@ + debug_quoted(s@) + ")"@,
        LiteralValue::Number(s) => "Number("@ + debug_quoted(s@) + ")"@,
        LiteralValue::Integer(i) => "Integer("@ + int_text(i as int) + ")"@,
        LiteralValue::Boolean(b) => "Boolean("@ + bool_text(b) + ")"@,
        LiteralValue::Null => "Null"@,
        LiteralValue::Undefined => "Undefined"@,
        LiteralValue::BigInt(s) => "BigInt("@ + debug_quoted(s@) + ")"@,
    }
}

pub open spec fn literal_debug(l: LiteralExpr) -> Seq<char> {
    "LiteralExpr { value: "@ + value_debug(l.value) + ", raw: "@ + debug_quoted(l.raw@) + " }"@
}

/// The debug text of an expression, as `derive(Debug)` writes it.
pub open spec fn expr_debug(e: Expr) -> Seq<char>
    decreases e,
{
    match e {
        Expr::Literal(l) => "Literal("@ + literal_debug(l) + ")"@,
        Expr::Ident(i) => "Ident(IdentExpr { name: "@ + debug_quoted(i.name@) + ", global: "@ + bool_text(i.global)
            + " })"@,
        Expr::Call(c) => "Call(CallExpr { callee: "@ + expr_debug(*c.callee) + ", args: ["@ + exprs_debug(c.args@)
            + "] })"@,
        Expr::Binary(b) => "Binary(BinaryExpr { left: "@ + expr_debug(*b.left) + ", right: "@ + expr_debug(*b.right)
            + ", op: "@ + bin_op_name(b.op) + " })"@,
        Expr::Unary(u) => "Unary(UnaryExpr { op: "@ + un_op_name(u.op) + ", expr: "@ + expr_debug(*u.expr) + " })"@,
        Expr::Lambda(l) => "Lambda(LambdaExpr { params: ["@ + strs_debug(l.params@) + "], body: "@ + expr_debug(*l.body)
            + " })"@,
        Expr::Object(o) => "Object(ObjectExpr { props: ["@ + props_debug(o.props@) + "] })"@,
        Expr::Array(a) => "Array(ArrayExpr { elements: ["@ + exprs_debug(a.elements@) + "] })"@,
        Expr::Member(m) => "Member(MemberExpr { obj: "@ + expr_debug(*m.obj) + ", prop: "@ + debug_quoted(m.prop@)
            + ", computed: "@ + bool_text(m.computed) + " })"@,
        Expr::Ternary(c, t, f) => "Ternary("@ + expr_debug(*c) + ", "@ + expr_debug(*t) + ", "@ + expr_debug(*f) + ")"@,
        Expr::Template(t) => "Template(TemplateExpr { quasis: ["@ + quasis_debug(t.quasis@) + "], expressions: ["@
            + exprs_debug(t.expressions@) + "] })"@,
        Expr::Await(a) => "Await(AwaitExpr { expr: "@ + expr_debug(*a.expr) + " })"@,
        Expr::Spread(s) => "Spread(SpreadExpr { expr: "@ + expr_debug(*s.expr) + " })"@,
    }
}

pub open spec fn exprs_debug(s: Seq<Expr>) -> Seq<char>
    decreases s,
{
    if s.len() == 0 {
        seq![]
    } else if s.len() == 1 {
        expr_debug(s[0])
    } else {
        exprs_debug(s.drop_last()) + ", "@ + expr_debug(s.last())
    }
}

pub open spec fn prop_debug(p: ObjectProp) -> Seq<char>
    decreases p,
{
    "ObjectProp { key: "@ + debug_quoted(p.key@) + ", value: "@ + expr_debug(p.value) + ", shorthand: "@ + bool_text(
        p.shorthand,
    ) + " }"@
}

pub open spec fn props_debug(s: Seq<ObjectProp>) -> Seq<char>
    decreases s,
{
    if s.len() == 0 {
        seq![]
    } else if s.len() == 1 {
        prop_debug(s[0])
    } else {
        props_debug(s.drop_last()) + ", "@ + prop_debug(s.last())
    }
}

pub open spec fn strs_debug(s: Seq<String>) -> Seq<char>
    decreases s.len(),
{
    if s.len() == 0 {
        seq![]
    } else if s.len() == 1 {
        debug_quoted(s[0]@)
    } else {
        strs_debug(s.drop_last()) + ", "@ + debug_quoted(s.last()@)
    }
}

pub open spec fn quasi_debug(q: TemplateElement) -> Seq<char> {
    "TemplateElement { value: "@ + debug_quoted(q.value@) + ", tail: "@ + bool_text(q.tail) + " }"@
}

pub open spec fn quasis_debug(s: Seq<TemplateElement>) -> Seq<char>
    decreases s.len(),
{
    if s.len() == 0 {
        seq![]
    } else if s.len() == 1 {
        quasi_debug(s[0])
    } else {
        quasis_debug(s.drop_last()) + ", "@ + quasi_debug(s.last())
    }
}

fn push_bool(out: &mut String, b: bool)
    ensures
        final(out)@ == old(out)@ + bool_text(b),
{
    if b {
        push_str(out, "true");
    } else {
        push_str(out, "false");
    }
}

fn push_quoted(out: &mut String, s: &String)
    ensures
        final(out)@ == old(out)@ + debug_quoted(s@),
{
    let q = debug_str(s.as_str());
    push_string(out, &q);
}

fn push_int(out: &mut String, i: i64)
    ensures
        final(out)@ == old(out)@ + int_text(i as int),
{
    if i < 0 {
        push_char(out, '-');
        let w: i128 = i as i128;
        let m: u128 = (0i128 - w) as u128;
        assert(m as int == -(i as int));
        push_decimal(out, m);
        assert(out@ =~= old(out)@ + int_text(i as int));
    } else {
        push_decimal(out, i as u128);
    }
}

fn write_value(v: &LiteralValue, out: &mut String)
    ensures
        final(out)@ == old(out)@ + value_debug(*v),
{
    match v {
        LiteralValue::String(s) => {
            push_str(out, "String(");
            push_quoted(out, s);
            push_str(out, ")");
        }
        LiteralValue::Number(s) => {
            push_str(out, "Number(");
            push_quoted(out, s);
            push_str(out, ")");
        }
        LiteralValue::Integer(i) => {
            push_str(out, "Integer(");
            push_int(out, *i);
            push_str(out, ")");
        }
        LiteralValue::Boolean(b) => {
            push_str(out, "Boolean(");
            push_bool(out, *b);
            push_str(out, ")");
        }
        LiteralValue::Null => push_str(out, "Null"),
        LiteralValue::Undefined => push_str(out, "Undefined"),
        LiteralValue::BigInt(s) => {
            push_str(out, "BigInt(");
            push_quoted(out, s);
            push_str(out, ")");
        }
    }
    assert(out@ =~= old(out)@ + value_debug(*v));
}

fn bin_op_text(op: BinaryOp) -> (s: &'static str)
    ensures
        s@ == bin_op_name(op),
{
    match op {
        BinaryOp::Add => "Add",
        BinaryOp::Sub => "Sub",
        BinaryOp::Mul => "Mul",
        BinaryOp::Div => "Div",
        BinaryOp::Mod => "Mod",
        BinaryOp::Eq => "Eq",
        BinaryOp::NotEq => "NotEq",
        BinaryOp::Lt => "Lt",
        BinaryOp::Gt => "Gt",
        BinaryOp::LtEq => "LtEq",
        BinaryOp::GtEq => "GtEq",
        BinaryOp::And => "And",
        BinaryOp::Or => "Or",
        BinaryOp::Nullish => "Nullish",
    }
}

fn un_op_text(op: UnaryOp) -> (s: &'static str)
    ensures
        s@ == un_op_name(op),
{
    match op {
        UnaryOp::Not => "Not",
        UnaryOp::Neg => "Neg",
        UnaryOp::Typeof => "Typeof",
        UnaryOp::Void => "Void",
    }
}

/// Appends the debug text of `e` to `out`.
#[verifier::rlimit(40)]
pub fn write_debug(e: &Expr, out: &mut String)
    ensures
        final(out)@ == old(out)@ + expr_debug(*e),
    decreases e,
{
    match e {
        Expr::Literal(l) => {
            push_str(out, "Literal(");
            push_str(out, "LiteralExpr { value: ");
            write_value(&l.value, out);
            push_str(out, ", raw: ");
            push_quoted(out, &l.raw);
            push_str(out, " }");
            push_str(out, ")");
            assert(out@ =~= old(out)@ + expr_debug(*e));
        }
        Expr::Ident(i) => {
            push_str(out, "Ident(IdentExpr { name: ");
            push_quoted(out, &i.name);
            push_str(out, ", global: ");
            push_bool(out, i.global);
            push_str(out, " })");
            assert(out@ =~= old(out)@ + expr_debug(*e));
        }
        Expr::Call(c) => {
            push_str(out, "Call(CallExpr { callee: ");
            write_debug(&c.callee, out);
            push_str(out, ", args: [");
            write_exprs(&c.args, out);
            push_str(out, "] })");
            assert(out@ =~= old(out)@ + expr_debug(*e));
        }
        Expr::Binary(b) => {
            push_str(out, "Binary(BinaryExpr { left: ");
            write_debug(&b.left, out);
            push_str(out, ", right: ");
            write_debug(&b.right, out);
            push_str(out, ", op: ");
            push_str(out, bin_op_text(b.op));
            push_str(out, " })");
            assert(out@ =~= old(out)@ + expr_debug(*e));
        }
        Expr::Unary(u) => {
            push_str(out, "Unary(UnaryExpr { op: ");
            push_str(out, un_op_text(u.op));
            push_str(out, ", expr: ");
            write_debug(&u.expr, out);
            push_str(out, " })");
            assert(out@ =~= old(out)@ + expr_debug(*e));
        }
        Expr::Lambda(l) => {
            push_str(out, "Lambda(LambdaExpr { params: [");
            write_strs(&l.params, out);
            push_str(out, "], body: ");
            write_debug(&l.body, out);
            push_str(out, " })");
            assert(out@ =~= old(out)@ + expr_debug(*e));
        }
        Expr::Object(o) => {
            push_str(out, "Object(ObjectExpr { props: [");
            write_props(&o.props, out);
            push_str(out, "] })");
            assert(out@ =~= old(out)@ + expr_debug(*e));
        }
        Expr::Array(a) => {
            push_str(out, "Array(ArrayExpr { elements: [");
            write_exprs(&a.elements, out);
            push_str(out, "] })");
            assert(out@ =~= old(out)@ + expr_debug(*e));
        }
        Expr::Member(m) => {
            push_str(out, "Member(MemberExpr { obj: ");
            write_debug(&m.obj, out);
            push_str(out, ", prop: ");
            push_quoted(out, &m.prop);
            push_str(out, ", computed: ");
            push_bool(out, m.computed);
            push_str(out, " })");
            assert(out@ =~= old(out)@ + expr_debug(*e));
        }
        Expr::Ternary(c, t, f) => {
            push_str(out, "Ternary(");
            write_debug(c, out);
            push_str(out, ", ");
            write_debug(t, out);
            push_str(out, ", ");
            write_debug(f, out);
            push_str(out, ")");
            assert(out@ =~= old(out)@ + expr_debug(*e));
        }
        Expr::Template(t) => {
            push_str(out, "Template(TemplateExpr { quasis: [");
            write_quasis(&t.quasis, out);
            push_str(out, "], expressions: [");
            write_exprs(&t.expressions, out);
            push_str(out, "] })");
            assert(out@ =~= old(out)@ + expr_debug(*e));
        }
        Expr::Await(a) => {
            push_str(out, "Await(AwaitExpr { expr: ");
            write_debug(&a.expr, out);
            push_str(out, " })");
            assert(out@ =~= old(out)@ + expr_debug(*e));
        }
        Expr::Spread(s) => {
            push_str(out, "Spread(SpreadExpr { expr: ");
            write_debug(&s.expr, out);
            push_str(out, " })");
            assert(out@ =~= old(out)@ + expr_debug(*e));
        }
    }
}

#[verifier::loop_isolation(false)]
fn write_exprs(v: &Vec<Expr>, out: &mut String)
    ensures
        final(out)@ == old(out)@ + exprs_debug(v@),
    decreases v,
{
    let mut i: usize = 0;
    while i < v.len()
        invariant
            i <= v.len(),
            out@ == old(out)@ + exprs_debug(v@.take(i as int)),
        decreases v.len() - i,
    {
        proof {
            assert(decreases_to!(v => v@));
            assert(decreases_to!(v@ => v@[i as int]));
        }
        if i > 0 {
            push_str(out, ", ");
        }
        write_debug(&v[i], out);
        proof {
            let t = v@.take(i + 1);
            assert(t.drop_last() =~= v@.take(i as int));
            assert(out@ =~= old(out)@ + exprs_debug(t));
        }
        i += 1;
    }
    assert(v@.take(v.len() as int) =~= v@);
}

#[verifier::loop_isolation(false)]
fn write_props(v: &Vec<ObjectProp>, out: &mut String)
    ensures
        final(out)@ == old(out)@ + props_debug(v@),
    decreases v,
{
    let mut i: usize = 0;
    while i < v.len()
        invariant
            i <= v.len(),
            out@ == old(out)@ + props_debug(v@.take(i as int)),
        decreases v.len() - i,
    {
        proof {
            assert(decreases_to!(v => v@));
            assert(decreases_to!(v@ => v@[i as int]));
            assert(decreases_to!(v@[i as int] => v@[i as int].value));
        }
        if i > 0 {
            push_str(out, ", ");
        }
        push_str(out, "ObjectProp { key: ");
        push_quoted(out, &v[i].key);
        push_str(out, ", value: ");
        write_debug(&v[i].value, out);
        push_str(out, ", shorthand: ");
        push_bool(out, v[i].shorthand);
        push_str(out, " }");
        proof {
            let t = v@.take(i + 1);
            assert(t.drop_last() =~= v@.take(i as int));
            assert(t.last() == v@[i as int]);
            assert(t[0] == v@[0]);
            assert(prop_debug(v@[i as int]) == "ObjectProp { key: "@ + debug_quoted(v@[i as int].key@) + ", value: "@
                + expr_debug(v@[i as int].value) + ", shorthand: "@ + bool_text(v@[i as int].shorthand) + " }"@);
            assert(out@ =~= old(out)@ + props_debug(t));
        }
        i += 1;
    }
    assert(v@.take(v.len() as int) =~= v@);
}

fn write_strs(v: &Vec<String>, out: &mut String)
    ensures
        final(out)@ == old(out)@ + strs_debug(v@),
{
    let mut i: usize = 0;
    while i < v.len()
        invariant
            i <= v.len(),
            out@ == old(out)@ + strs_debug(v@.take(i as int)),
        decreases v.len() - i,
    {
        if i > 0 {
            push_str(out, ", ");
        }
        push_quoted(out, &v[i]);
        proof {
            let t = v@.take(i + 1);
            assert(t.drop_last() =~= v@.take(i as int));
            assert(out@ =~= old(out)@ + strs_debug(t));
        }
        i += 1;
    }
    assert(v@.take(v.len() as int) =~= v@);
}

fn write_quasis(v: &Vec<TemplateElement>, out: &mut String)
    ensures
        final(out)@ == old(out)@ + quasis_debug(v@),
{
    let mut i: usize = 0;
    while i < v.len()
        invariant
            i <= v.len(),
            out@ == old(out)@ + quasis_debug(v@.take(i as int)),
        decreases v.len() - i,
    {
        if i > 0 {
            push_str(out, ", ");
        }
        push_str(out, "TemplateElement { value: ");
        push_quoted(out, &v[i].value);
        push_str(out, ", tail: ");
        push_bool(out, v[i].tail);
        push_str(out, " }");
        proof {
            let t = v@.take(i + 1);
            assert(t.drop_last() =~= v@.take(i as int));
            assert(out@ =~= old(out)@ + quasis_debug(t));
        }
        i += 1;
    }
    assert(v@.take(v.len() as int) =~= v@);
}

} // verus!
