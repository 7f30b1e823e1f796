//! HTML output: the page around the application, and static markup for a
//! component's rendered element calls.
use vstd::prelude::*;
use crate::ast::{Program, Component, CssBlock, CssRule, Stmt, Expr, ObjectProp};
use crate::text::{owned, push_str, push_string, push_char, chars_of, slice_string, str_eq, join, views};
use super::css::css_line;

verus! {

/// One level deeper (wrapping at the end of `usize`).
pub open spec fn deeper(i: int) -> int {
    if i == usize::MAX { 0 } else { i + 1 }
}

pub open spec fn head_html(ind: int) -> Seq<char> {
    css_line(ind, "<head>"@) + css_line(deeper(ind), "<meta charset=\"UTF-8\">"@) + css_line(
        deeper(ind),
        "<meta name=\"viewport\" content=\"width=device-width, initial-scale=1.0\">"@,
    ) + css_line(deeper(ind), "<title>PySuals App</title>"@) + css_line(ind, "</head>"@)
}

pub open spec fn rules_html(ind: int, s: Seq<CssRule>) -> Seq<char>
    decreases s.len(),
{
    if s.len() == 0 {
        seq![]
    } else {
        rules_html(ind, s.drop_last()) + css_line(ind, s.last().property@ + ": "@ + s.last().value@ + ";"@)
    }
}

/// A style element for a block; a scoped block's selector is limited to
/// elements with the scope attribute.
pub open spec fn style_html(ind: int, b: CssBlock) -> Seq<char> {
    let sel = if b.scoped { b.selector@ + "[data-pysuals-scope]"@ } else { b.selector@ };
    css_line(ind, "<style>"@) + css_line(deeper(ind), sel + " {"@) + rules_html(deeper(deeper(ind)), b.rules@)
        + css_line(deeper(ind), "}"@) + css_line(ind, "</style>"@)
}

pub open spec fn styles_html(ind: int, s: Seq<CssBlock>) -> Seq<char>
    decreases s.len(),
{
    if s.len() == 0 { seq![] } else { styles_html(ind, s.drop_last()) + style_html(ind, s.last()) }
}

pub open spec fn body_html(ind: int, p: Program) -> Seq<char> {
    css_line(ind, "<body>"@) + css_line(deeper(ind), "<div id=\"app\"></div>"@) + styles_html(deeper(ind), p.css@)
        + css_line(ind, "</body>"@)
}

/// The page: doctype, head, and a body with the mount point and the style
/// blocks.
pub open spec fn page_html(ind: int, p: Program) -> Seq<char> {
    css_line(ind, "<!DOCTYPE html>"@) + css_line(ind, "<html lang=\"en\">"@) + head_html(deeper(ind)) + body_html(
        deeper(ind),
        p,
    ) + css_line(ind, "</html>"@)
}

/// The tags rendered as elements; other called names render as
/// self-closing tags of that name.
pub open spec fn known_tag(t: Seq<char>) -> bool {
    t == "div"@ || t == "span"@ || t == "button"@ || t == "h1"@ || t == "h2"@ || t == "p"@ || t == "a"@ || t
        == "img"@ || t == "input"@ || t == "form"@
}

/// The key names an event handler: it starts with `on`.
pub open spec fn is_event(k: Seq<char>) -> bool {
    k.len() >= 2 && k[0] == 'o' && k[1] == 'n'
}

/// The attributes an object argument gives: `class` and `id` from literal
/// values, and an empty handler for each `on..` key.
pub open spec fn prop_attrs(s: Seq<ObjectProp>) -> Seq<Seq<char>>
    decreases s.len(),
{
    if s.len() == 0 {
        seq![]
    } else {
        let p = s.last();
        prop_attrs(s.drop_last()) + if p.key@ == "className"@ || p.key@ == "class"@ {
            match p.value {
                Expr::Literal(l) => seq!["class=\""@ + l.raw@ + "\""@],
                _ => seq![],
            }
        } else if p.key@ == "id"@ {
            match p.value {
                Expr::Literal(l) => seq!["id=\""@ + l.raw@ + "\""@],
                _ => seq![],
            }
        } else if is_event(p.key@) {
            seq!["on"@ + p.key@.skip(2) + "={}"@]
        } else {
            seq![]
        }
    }
}

pub open spec fn arg_attrs(args: Seq<Expr>) -> Seq<Seq<char>>
    decreases args.len(),
{
    if args.len() == 0 {
        seq![]
    } else {
        arg_attrs(args.drop_last()) + match args.last() {
            Expr::Object(o) => prop_attrs(o.props@),
            _ => seq![],
        }
    }
}

/// The children the arguments give: a literal's text, a call's markup and
/// the markup of each element of an array.
pub open spec fn arg_children(args: Seq<Expr>) -> Seq<Seq<char>>
    decreases args,
{
    if args.len() == 0 {
        seq![]
    } else {
        arg_children(args.drop_last()) + match args.last() {
            Expr::Literal(l) => seq![l.raw@],
            Expr::Call(_) => seq![expr_html(args.last())],
            Expr::Array(a) => elems_html(a.elements@),
            _ => seq![],
        }
    }
}

pub open spec fn elems_html(s: Seq<Expr>) -> Seq<Seq<char>>
    decreases s,
{
    if s.len() == 0 { seq![] } else { elems_html(s.drop_last()).push(expr_html(s.last())) }
}

pub open spec fn attrs_text(a: Seq<Seq<char>>) -> Seq<char> {
    if a.len() == 0 { seq![] } else { " "@ + join(a, " "@) }
}

/// An element: self-closing without children.
pub open spec fn element(tag: Seq<char>, attrs: Seq<Seq<char>>, children: Seq<Seq<char>>) -> Seq<char> {
    if children.len() == 0 {
        "<"@ + tag + attrs_text(attrs) + " />"@
    } else {
        "<"@ + tag + attrs_text(attrs) + ">"@ + join(children, ""@) + "</"@ + tag + ">"@
    }
}

/// The markup of an expression: a call of a name renders as an element;
/// anything else renders as nothing.
pub open spec fn expr_html(e: Expr) -> Seq<char>
    decreases e,
{
    match e {
        Expr::Call(c) => match *c.callee {
            Expr::Ident(i) => if known_tag(i.name@) {
                element(i.name@, arg_attrs(c.args@), arg_children(c.args@))
            } else {
                "<"@ + i.name@ + " />"@
            },
            _ => seq![],
        },
        _ => seq![],
    }
}

/// The position of the first `return` in a body.
pub open spec fn first_return(s: Seq<Stmt>, from: int) -> Option<int>
    decreases s.len() - from,
{
    if from < 0 || from >= s.len() {
        None
    } else if s[from] is Return {
        Some(from)
    } else {
        first_return(s, from + 1)
    }
}

pub struct HTMLGenerator {
    output: String,
    indent: usize,
}

impl HTMLGenerator {
    pub closed spec fn depth(&self) -> int {
        self.indent as int
    }

    pub fn new() -> (g: HTMLGenerator)
        ensures
            g.depth() == 0,
    {
        HTMLGenerator { output: String::new(), indent: 0 }
    }

    /// The page for `program`.
    pub fn generate(&mut self, program: &Program) -> (r: String)
        ensures
            r@ == page_html(old(self).depth(), *program),
            final(self).depth() == old(self).depth(),
    {
        self.output = String::new();
        self.emit_line("<!DOCTYPE html>");
        self.emit_line("<html lang=\"en\">");
        self.indent = self.indent.wrapping_add(1);
        self.generate_head();
        self.generate_body(program);
        self.indent = self.indent.wrapping_sub(1);
        self.emit_line("</html>");
        assert(self.output@ =~= page_html(old(self).depth(), *program));
        self.output.clone()
    }

    fn generate_head(&mut self)
        ensures
            final(self).output@ == old(self).output@ + head_html(old(self).indent as int),
            final(self).indent == old(self).indent,
    {
        self.emit_line("<head>");
        self.indent = self.indent.wrapping_add(1);
        self.emit_line("<meta charset=\"UTF-8\">");
        self.emit_line("<meta name=\"viewport\" content=\"width=device-width, initial-scale=1.0\">");
        self.emit_line("<title>PySuals App</title>");
        self.indent = self.indent.wrapping_sub(1);
        self.emit_line("</head>");
        assert(self.output@ =~= old(self).output@ + head_html(old(self).indent as int));
    }

    fn generate_body(&mut self, program: &Program)
        ensures
            final(self).output@ == old(self).output@ + body_html(old(self).indent as int, *program),
            final(self).indent == old(self).indent,
    {
        let ghost ind = self.indent as int;
        self.emit_line("<body>");
        self.indent = self.indent.wrapping_add(1);
        self.emit_line("<div id=\"app\"></div>");
        let ghost o1 = self.output@;
        let mut i: usize = 0;
        while i < program.css.len()
            invariant
                i <= program.css.len(),
                self.indent as int == deeper(ind),
                self.output@ == o1 + styles_html(deeper(ind), program.css@.take(i as int)),
            decreases program.css.len() - i,
        {
            self.generate_css(&program.css[i]);
            assert(program.css@.take(i + 1).drop_last() =~= program.css@.take(i as int));
            i += 1;
        }
        assert(program.css@.take(program.css.len() as int) =~= program.css@);
        self.indent = self.indent.wrapping_sub(1);
        self.emit_line("</body>");
        assert(self.output@ =~= old(self).output@ + body_html(ind, *program));
    }

    fn generate_css(&mut self, css: &CssBlock)
        ensures
            final(self).output@ == old(self).output@ + style_html(old(self).indent as int, *css),
            final(self).indent == old(self).indent,
    {
        let ghost ind = self.indent as int;
        let mut sel = css.selector.clone();
        if css.scoped {
            push_str(&mut sel, "[data-pysuals-scope]");
        }
        self.emit_line("<style>");
        self.indent = self.indent.wrapping_add(1);
        push_str(&mut sel, " {");
        self.emit_line(sel.as_str());
        self.indent = self.indent.wrapping_add(1);
        let ghost o1 = self.output@;
        let mut i: usize = 0;
        while i < css.rules.len()
            invariant
                i <= css.rules.len(),
                self.indent as int == deeper(deeper(ind)),
                self.output@ == o1 + rules_html(deeper(deeper(ind)), css.rules@.take(i as int)),
            decreases css.rules.len() - i,
        {
            let mut t = css.rules[i].property.clone();
            push_str(&mut t, ": ");
            push_string(&mut t, &css.rules[i].value);
            push_str(&mut t, ";");
            self.emit_line(t.as_str());
            assert(css.rules@.take(i + 1).drop_last() =~= css.rules@.take(i as int));
            i += 1;
        }
        assert(css.rules@.take(css.rules.len() as int) =~= css.rules@);
        self.indent = self.indent.wrapping_sub(1);
        self.emit_line("}");
        self.indent = self.indent.wrapping_sub(1);
        self.emit_line("</style>");
        assert(self.output@ =~= old(self).output@ + style_html(ind, *css));
    }

    /// The markup of the component's first `return`, if it has one.
    pub fn generate_component_html(&mut self, component: &Component) -> (r: String)
        ensures
            r@ == match first_return(component.body@, 0) {
                Some(k) => match component.body@[k] {
                    Stmt::Return(e) => expr_html(e),
                    _ => seq![],
                },
                None => seq![],
            },
    {
        let mut i: usize = 0;
        while i < component.body.len()
            invariant
                i <= component.body.len(),
                first_return(component.body@, 0) == first_return(component.body@, i as int),
            decreases component.body.len() - i,
        {
            match &component.body[i] {
                Stmt::Return(expr) => {
                    return self.expr_to_html(expr);
                }
                _ => {}
            }
            i += 1;
        }
        String::new()
    }

    /// The markup of an expression.
    pub fn expr_to_html(&self, expr: &Expr) -> (r: String)
        ensures
            r@ == expr_html(*expr),
        decreases expr, 2nat,
    {
        match expr {
            Expr::Call(call) => match &*call.callee {
                Expr::Ident(ident) => {
                    let n = ident.name.as_str();
                    if str_eq(n, "div") || str_eq(n, "span") || str_eq(n, "button") || str_eq(n, "h1") || str_eq(
                        n,
                        "h2",
                    ) || str_eq(n, "p") || str_eq(n, "a") || str_eq(n, "img") || str_eq(n, "input") || str_eq(
                        n,
                        "form",
                    ) {
                        self.element_to_html(&ident.name, &call.args)
                    } else {
                        let mut s = owned("<");
                        push_string(&mut s, &ident.name);
                        push_str(&mut s, " />");
                        s
                    }
                }
                _ => String::new(),
            },
            _ => String::new(),
        }
    }

    fn element_to_html(&self, tag: &String, args: &Vec<Expr>) -> (r: String)
        ensures
            r@ == element(tag@, arg_attrs(args@), arg_children(args@)),
        decreases args, 1nat,
    {
        let attributes = self.collect_attrs(args);
        let children = self.collect_children(args);
        let mut s = owned("<");
        push_string(&mut s, tag);
        let a = self.attributes_to_string(&attributes);
        push_string(&mut s, &a);
        if children.len() == 0 {
            push_str(&mut s, " />");
        } else {
            push_str(&mut s, ">");
            let c = crate::text::join_strings(&children, "");
            push_string(&mut s, &c);
            push_str(&mut s, "</");
            push_string(&mut s, tag);
            push_str(&mut s, ">");
        }
        assert(s@ =~= element(tag@, arg_attrs(args@), arg_children(args@)));
        s
    }

    fn collect_attrs(&self, args: &Vec<Expr>) -> (v: Vec<String>)
        ensures
            views(v@) == arg_attrs(args@),
    {
        let mut v: Vec<String> = Vec::new();
        let mut i: usize = 0;
        while i < args.len()
            invariant
                i <= args.len(),
                views(v@) == arg_attrs(args@.take(i as int)),
            decreases args.len() - i,
        {
            let ghost v0 = views(v@);
            match &args[i] {
                Expr::Object(obj) => {
                    let mut j: usize = 0;
                    while j < obj.props.len()
                        invariant
                            j <= obj.props.len(),
                            views(v@) == v0 + prop_attrs(obj.props@.take(j as int)),
                        decreases obj.props.len() - j,
                    {
                        let prop = &obj.props[j];
                        let ghost w0 = views(v@);
                        let k = prop.key.as_str();
                        if str_eq(k, "className") || str_eq(k, "class") {
                            match &prop.value {
                                Expr::Literal(lit) => {
                                    let mut a = owned("class=\"");
                                    push_string(&mut a, &lit.raw);
                                    push_str(&mut a, "\"");
                                    v.push(a);
                                    assert(views(v@) =~= w0.push(a@));
                                }
                                _ => {}
                            }
                        } else if str_eq(k, "id") {
                            match &prop.value {
                                Expr::Literal(lit) => {
                                    let mut a = owned("id=\"");
                                    push_string(&mut a, &lit.raw);
                                    push_str(&mut a, "\"");
                                    v.push(a);
                                    assert(views(v@) =~= w0.push(a@));
                                }
                                _ => {}
                            }
                        } else {
                            let cs = chars_of(k);
                            if cs.len() >= 2 && cs[0] == 'o' && cs[1] == 'n' {
                                let mut a = owned("on");
                                let ev = slice_string(cs.as_slice(), 2, cs.len());
                                push_string(&mut a, &ev);
                                push_str(&mut a, "={}");
                                assert(ev@ =~= prop.key@.skip(2));
                                v.push(a);
                                assert(views(v@) =~= w0.push(a@));
                            }
                        }
                        proof {
                            let t = obj.props@.take(j + 1);
                            assert(t.drop_last() =~= obj.props@.take(j as int));
                            assert(t.last() == obj.props@[j as int]);
                            assert(views(v@) =~= v0 + prop_attrs(t));
                        }
                        j += 1;
                    }
                    assert(obj.props@.take(obj.props.len() as int) =~= obj.props@);
                }
                _ => {}
            }
            proof {
                let t = args@.take(i + 1);
                assert(t.drop_last() =~= args@.take(i as int));
                assert(t.last() == args@[i as int]);
                assert(views(v@) =~= arg_attrs(t));
            }
            i += 1;
        }
        assert(args@.take(args.len() as int) =~= args@);
        v
    }

    #[verifier::loop_isolation(false)]
    fn collect_children(&self, args: &Vec<Expr>) -> (v: Vec<String>)
        ensures
            views(v@) == arg_children(args@),
        decreases args, 0nat,
    {
        let mut v: Vec<String> = Vec::new();
        let mut i: usize = 0;
        while i < args.len()
            invariant
                i <= args.len(),
                views(v@) == arg_children(args@.take(i as int)),
            decreases args.len() - i,
        {
            proof {
                assert(decreases_to!(args => args@));
                assert(decreases_to!(args@ => args@[i as int]));
            }
            let ghost v0 = views(v@);
            match &args[i] {
                Expr::Literal(lit) => {
                    let h = lit.raw.clone();
                    v.push(h);
                    assert(views(v@) =~= v0.push(h@));
                }
                Expr::Call(_) => {
                    let h = self.expr_to_html(&args[i]);
                    v.push(h);
                    assert(views(v@) =~= v0.push(h@));
                }
                Expr::Array(arr) => {
                    let mut j: usize = 0;
                    while j < arr.elements.len()
                        invariant
                            j <= arr.elements.len(),
                            views(v@) == v0 + elems_html(arr.elements@.take(j as int)),
                        decreases arr.elements.len() - j,
                    {
                        proof {
                            assert(decreases_to!(args@[i as int] => arr.elements));
                            assert(decreases_to!(arr.elements => arr.elements@));
                            assert(decreases_to!(arr.elements@ => arr.elements@[j as int]));
                        }
                        let h = self.expr_to_html(&arr.elements[j]);
                        let ghost w0 = views(v@);
                        v.push(h);
                        assert(views(v@) =~= w0.push(h@));
                        proof {
                            let t = arr.elements@.take(j + 1);
                            assert(t.drop_last() =~= arr.elements@.take(j as int));
                            assert(views(v@) =~= v0 + elems_html(t));
                        }
                        j += 1;
                    }
                    assert(arr.elements@.take(arr.elements.len() as int) =~= arr.elements@);
                }
                _ => {}
            }
            proof {
                let t = args@.take(i + 1);
                assert(t.drop_last() =~= args@.take(i as int));
                assert(t.last() == args@[i as int]);
                assert(views(v@) =~= arg_children(t));
            }
            i += 1;
        }
        assert(args@.take(args.len() as int) =~= args@);
        v
    }

    fn attributes_to_string(&self, attrs: &Vec<String>) -> (r: String)
        ensures
            r@ == attrs_text(views(attrs@)),
    {
        if attrs.len() == 0 {
            String::new()
        } else {
            let mut s = owned(" ");
            let j = crate::text::join_strings(attrs, " ");
            push_string(&mut s, &j);
            s
        }
    }

    fn emit_line(&mut self, text: &str)
        ensures
            final(self).output@ == old(self).output@ + css_line(old(self).indent as int, text@),
            final(self).indent == old(self).indent,
    {
        let mut k: usize = 0;
        while k < self.indent
            invariant
                k <= self.indent,
                self.indent == old(self).indent,
                self.output@ == old(self).output@ + super::js::indent_text(k as nat),
            decreases self.indent - k,
        {
            push_char(&mut self.output, ' ');
            push_char(&mut self.output, ' ');
            k += 1;
        }
        push_str(&mut self.output, text);
        push_char(&mut self.output, '\n');
        assert(self.output@ =~= old(self).output@ + css_line(old(self).indent as int, text@));
    }
}

} // verus!
