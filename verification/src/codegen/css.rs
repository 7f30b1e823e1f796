//! CSS output for a program's style blocks, and simple CSS rewrites.
use vstd::prelude::*;
use crate::ast::{Program, Component, CssBlock, CssRule};
use crate::text::{
    owned, push_str, push_string, push_char, push_decimal, decimal, chars_of, string_from, contains,
    contains_chars, replace, replace_chars, lines, lines_of, str_eq,
};
use super::js::indent_text;

verus! {

/// A line of CSS output: always indented, then a newline.
pub open spec fn css_line(ind: int, t: Seq<char>) -> Seq<char> {
    indent_text(ind as nat) + t + seq!['\n']
}

/// The suffix that scopes a selector: `_scope_` and a number.
pub open spec fn scope_suffix(n: int) -> Seq<char> {
    "_scope_"@ + decimal(n as nat)
}

/// The counter after one more scope (wrapping at the end of `u32`).
pub open spec fn next_scope(n: int) -> int {
    if n == u32::MAX { 0 } else { n + 1 }
}

pub open spec fn rules_css(ind: int, s: Seq<CssRule>) -> Seq<char>
    decreases s.len(),
{
    if s.len() == 0 {
        seq![]
    } else {
        rules_css(ind, s.drop_last()) + css_line(ind, "  "@ + s.last().property@ + ": "@ + s.last().value@ + ";"@)
    }
}

/// The text of a block and the scope counter after it: a scoped block's
/// selector takes the next scope suffix.
pub open spec fn block_css(ind: int, n: int, b: CssBlock) -> (Seq<char>, int) {
    let m = if b.scoped { next_scope(n) } else { n };
    let sel = if b.scoped { b.selector@ + scope_suffix(m) } else { b.selector@ };
    (
        css_line(ind, sel + " {"@) + rules_css(if ind == usize::MAX { 0 } else { ind + 1 }, b.rules@) + css_line(
            ind,
            "}"@,
        ) + css_line(ind, ""@),
        m,
    )
}

pub open spec fn blocks_css(ind: int, n: int, s: Seq<CssBlock>) -> (Seq<char>, int)
    decreases s.len(),
{
    if s.len() == 0 {
        (seq![], n)
    } else {
        let p = blocks_css(ind, n, s.drop_last());
        let q = block_css(ind, p.1, s.last());
        (p.0 + q.0, q.1)
    }
}

/// Minified CSS: `/` is dropped, each run of blanks (space, newline, tab,
/// carriage return) becomes one space, and every other character stays.
pub open spec fn minify_css(s: Seq<char>) -> Seq<char>
    decreases s.len(),
{
    if s.len() == 0 {
        seq![]
    } else {
        let p = minify_css(s.drop_last());
        let c = s.last();
        if c == '/' {
            p
        } else if c == ' ' || c == '\n' || c == '\t' || c == '\r' {
            if p.len() > 0 && p.last() == ' ' { p } else { p.push(' ') }
        } else {
            p.push(c)
        }
    }
}

/// One line with vendor-prefixed copies of `display: flex`, `transition:`
/// and `transform:` declarations, each where the line has it.
pub open spec fn prefix_line(l: Seq<char>) -> Seq<char> {
    let a = if contains(l, "display: flex"@) {
        replace(l, "display: flex"@, "display: -webkit-flex;\n  display: flex"@)
    } else {
        l
    };
    let b = if contains(l, "transition:"@) {
        replace(a, "transition:"@, "-webkit-transition:;\n  transition:"@)
    } else {
        a
    };
    if contains(l, "transform:"@) {
        replace(b, "transform:"@, "-webkit-transform:;\n  transform:"@)
    } else {
        b
    }
}

/// Each line, prefixed, and a newline after each.
pub open spec fn prefix_lines(ls: Seq<Seq<char>>) -> Seq<char>
    decreases ls.len(),
{
    if ls.len() == 0 { seq![] } else { prefix_lines(ls.drop_last()) + prefix_line(ls.last()) + seq!['\n'] }
}

pub struct CSSGenerator {
    output: String,
    indent: usize,
    scoped_counter: u32,
    component_scopes: Vec<(String, String)>,
}

impl CSSGenerator {
    pub closed spec fn counter(&self) -> int {
        self.scoped_counter as int
    }

    pub closed spec fn depth(&self) -> int {
        self.indent as int
    }

    pub fn new() -> (g: CSSGenerator)
        ensures
            g.counter() == 0,
            g.depth() == 0,
    {
        CSSGenerator { output: String::new(), indent: 0, scoped_counter: 0, component_scopes: Vec::new() }
    }

    /// The CSS of every style block of `program`.
    pub fn generate(&mut self, program: &Program) -> (r: String)
        ensures
            r@ == blocks_css(old(self).depth(), old(self).counter(), program.css@).0,
            final(self).counter() == blocks_css(old(self).depth(), old(self).counter(), program.css@).1,
            final(self).depth() == old(self).depth(),
    {
        self.output = String::new();
        let mut i: usize = 0;
        while i < program.css.len()
            invariant
                i <= program.css.len(),
                self.indent == old(self).indent,
                self.output@ == blocks_css(self.indent as int, old(self).counter(), program.css@.take(i as int)).0,
                self.counter() == blocks_css(self.indent as int, old(self).counter(), program.css@.take(i as int)).1,
            decreases program.css.len() - i,
        {
            self.generate_css_block(&program.css[i]);
            assert(program.css@.take(i + 1).drop_last() =~= program.css@.take(i as int));
            i += 1;
        }
        assert(program.css@.take(program.css.len() as int) =~= program.css@);
        self.output.clone()
    }

    fn generate_css_block(&mut self, css: &CssBlock)
        ensures
            final(self).output@ == old(self).output@ + block_css(old(self).indent as int, old(self).counter(), *css).0,
            final(self).counter() == block_css(old(self).indent as int, old(self).counter(), *css).1,
            final(self).indent == old(self).indent,
    {
        let ghost ind = self.indent as int;
        let mut head = if css.scoped {
            self.generate_scoped_selector(&css.selector)
        } else {
            css.selector.clone()
        };
        push_str(&mut head, " {");
        self.emit_line(head.as_str());
        self.indent = self.indent.wrapping_add(1);
        let ghost o1 = self.output@;
        let mut i: usize = 0;
        while i < css.rules.len()
            invariant
                i <= css.rules.len(),
                self.indent as int == if ind == usize::MAX { 0 } else { ind + 1 },
                self.output@ == o1 + rules_css(self.indent as int, css.rules@.take(i as int)),
                self.counter() == block_css(ind, old(self).counter(), *css).1,
            decreases css.rules.len() - i,
        {
            let mut t = owned("  ");
            push_string(&mut t, &css.rules[i].property);
            push_str(&mut t, ": ");
            push_string(&mut t, &css.rules[i].value);
            push_str(&mut t, ";");
            self.emit_line(t.as_str());
            assert(css.rules@.take(i + 1).drop_last() =~= css.rules@.take(i as int));
            i += 1;
        }
        assert(css.rules@.take(css.rules.len() as int) =~= css.rules@);
        self.indent = self.indent.wrapping_sub(1);
        self.emit_line("}");
        self.emit_line("");
        assert(self.output@ =~= old(self).output@ + block_css(ind, old(self).counter(), *css).0);
    }

    /// The selector with the next scope suffix; the pair is remembered.
    fn generate_scoped_selector(&mut self, selector: &String) -> (r: String)
        ensures
            final(self).counter() == next_scope(old(self).counter()),
            r@ == selector@ + scope_suffix(final(self).counter()),
            final(self).output == old(self).output,
            final(self).indent == old(self).indent,
    {
        let scope = self.get_next_scope();
        let mut j: usize = 0;
        let mut found = false;
        while j < self.component_scopes.len()
            invariant
                j <= self.component_scopes.len(),
            decreases self.component_scopes.len() - j,
        {
            if str_eq(self.component_scopes[j].0.as_str(), selector.as_str()) {
                found = true;
                break;
            }
            j += 1;
        }
        if found && j < self.component_scopes.len() {
            self.component_scopes.set(j, (selector.clone(), scope.clone()));
        } else {
            self.component_scopes.push((selector.clone(), scope.clone()));
        }
        let mut r = selector.clone();
        push_string(&mut r, &scope);
        r
    }

    fn get_next_scope(&mut self) -> (r: String)
        ensures
            final(self).counter() == next_scope(old(self).counter()),
            r@ == scope_suffix(final(self).counter()),
            final(self).output == old(self).output,
            final(self).indent == old(self).indent,
            final(self).component_scopes == old(self).component_scopes,
    {
        self.scoped_counter = self.scoped_counter.wrapping_add(1);
        let mut r = owned("_scope_");
        push_decimal(&mut r, self.scoped_counter as u128);
        r
    }

    /// A class rule for the component's scope, if it has one.
    pub fn generate_component_css(&mut self, component: &Component) -> (r: String)
        ensures
            r@ == match component.css_scope {
                Some(s) => "."@ + s@ + " {}\n"@,
                None => seq![],
            },
    {
        let mut css = String::new();
        match &component.css_scope {
            Some(scope) => {
                push_str(&mut css, ".");
                push_string(&mut css, scope);
                push_str(&mut css, " {}\n");
            }
            None => {}
        }
        css
    }

    /// Drops `/` and collapses runs of blanks into one space.
    pub fn minify(&self, css: &str) -> (r: String)
        ensures
            r@ == minify_css(css@),
    {
        let cs = chars_of(css);
        let mut out: Vec<char> = Vec::new();
        let mut i: usize = 0;
        while i < cs.len()
            invariant
                i <= cs.len(),
                cs@ == css@,
                out@ == minify_css(css@.take(i as int)),
            decreases cs.len() - i,
        {
            let ch = cs[i];
            assert(css@.take(i + 1).drop_last() =~= css@.take(i as int));
            if ch == '/' {
            } else if ch == ' ' || ch == '\n' || ch == '\t' || ch == '\r' {
                if !(out.len() > 0 && out[out.len() - 1] == ' ') {
                    out.push(' ');
                }
            } else {
                out.push(ch);
            }
            i += 1;
        }
        assert(css@.take(cs.len() as int) =~= css@);
        string_from(out.as_slice())
    }

    /// Adds `-webkit-` copies of flex, transition and transform
    /// declarations, line by line.
    pub fn autoprefix(&self, css: &str) -> (r: String)
        ensures
            r@ == prefix_lines(lines(css@)),
    {
        let cs = chars_of(css);
        let ls = lines_of(cs.as_slice());
        let flex = chars_of("display: flex");
        let flex2 = chars_of("display: -webkit-flex;\n  display: flex");
        let tr = chars_of("transition:");
        let tr2 = chars_of("-webkit-transition:;\n  transition:");
        let tf = chars_of("transform:");
        let tf2 = chars_of("-webkit-transform:;\n  transform:");
        let mut out = String::new();
        let mut i: usize = 0;
        while i < ls.len()
            invariant
                i <= ls.len(),
                cs@ == css@,
                ls@.len() == lines(css@).len(),
                forall|k: int| 0 <= k < ls@.len() ==> #[trigger] ls@[k]@ == lines(css@)[k],
                flex@ == "display: flex"@,
                flex2@ == "display: -webkit-flex;\n  display: flex"@,
                tr@ == "transition:"@,
                tr2@ == "-webkit-transition:;\n  transition:"@,
                tf@ == "transform:"@,
                tf2@ == "-webkit-transform:;\n  transform:"@,
                out@ == prefix_lines(lines(css@).take(i as int)),
            decreases ls.len() - i,
        {
            let line = ls[i].as_slice();
            let mut new_line: Vec<char> = slice_all(line);
            if contains_chars(line, flex.as_slice()) {
                new_line = replace_chars(new_line.as_slice(), flex.as_slice(), flex2.as_slice());
            }
            if contains_chars(line, tr.as_slice()) {
                new_line = replace_chars(new_line.as_slice(), tr.as_slice(), tr2.as_slice());
            }
            if contains_chars(line, tf.as_slice()) {
                new_line = replace_chars(new_line.as_slice(), tf.as_slice(), tf2.as_slice());
            }
            let s = string_from(new_line.as_slice());
            push_string(&mut out, &s);
            push_char(&mut out, '\n');
            proof {
                let t = lines(css@).take(i + 1);
                assert(t.drop_last() =~= lines(css@).take(i as int));
                assert(t.last() == ls@[i as int]@);
            }
            i += 1;
        }
        assert(lines(css@).take(ls.len() as int) =~= lines(css@));
        out
    }

    fn emit_line(&mut self, text: &str)
        ensures
            final(self).output@ == old(self).output@ + css_line(old(self).indent as int, text@),
            final(self).indent == old(self).indent,
            final(self).scoped_counter == old(self).scoped_counter,
    {
        let mut k: usize = 0;
        while k < self.indent
            invariant
                k <= self.indent,
                self.indent == old(self).indent,
                self.scoped_counter == old(self).scoped_counter,
                self.output@ == old(self).output@ + indent_text(k as nat),
            decreases self.indent - k,
        {
            push_char(&mut self.output, ' ');
            push_char(&mut self.output, ' ');
            k += 1;
        }
        push_str(&mut self.output, text);
        push_char(&mut self.output, '\n');
        assert(self.output@ =~= old(self).output@ + css_line(old(self).indent as int, text@));
    }
}

/// A copy of `s`.
fn slice_all(s: &[char]) -> (r: Vec<char>)
    ensures
        r@ == s@,
{
    let r = crate::text::slice_chars(s, 0, s.len());
    assert(s@.subrange(0, s@.len() as int) =~= s@);
    r
}

} // verus!
