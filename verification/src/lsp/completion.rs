//! Completion: the language's keywords and the HTML elements.
use vstd::prelude::*;
use crate::text::{owned, push_str, push_string, views};

verus! {

/// A completion offered to the editor.
#[derive(Debug)]
pub struct CompletionItem {
    pub label: String,
    pub kind: u32,
    pub detail: Option<String>,
    pub documentation: Option<String>,
}

pub open spec fn opt_view(o: Option<String>) -> Option<Seq<char>> {
    match o {
        Some(s) => Some(s@),
        None => None,
    }
}

pub open spec fn item_view(i: CompletionItem) -> (Seq<char>, u32, Option<Seq<char>>, Option<Seq<char>>) {
    (i.label@, i.kind, opt_view(i.detail), opt_view(i.documentation))
}

pub open spec fn keyword_list() -> Seq<Seq<char>> {
    seq![
        "component"@, "signal"@, "effect"@, "computed"@, "def"@, "return"@, "if"@, "else"@, "for"@, "in"@,
        "while"@, "import"@, "from"@,
    ]
}

pub open spec fn builtin_list() -> Seq<Seq<char>> {
    seq![
        "div"@, "span"@, "button"@, "input"@, "form"@, "h1"@, "h2"@, "h3"@, "p"@, "a"@, "img"@, "ul"@, "li"@,
    ]
}

pub open spec fn keyword_item(k: Seq<char>) -> (Seq<char>, u32, Option<Seq<char>>, Option<Seq<char>>) {
    (k, 15, Some("Keyword"@), None)
}

pub open spec fn builtin_item(b: Seq<char>) -> (Seq<char>, u32, Option<Seq<char>>, Option<Seq<char>>) {
    (b, 7, Some("HTML element"@), Some("Creates a <"@ + b + "> element"@))
}

/// Completes keywords and HTML elements.
pub struct CompletionProvider {
    keywords: Vec<String>,
    builtins: Vec<String>,
}

impl CompletionProvider {
    pub closed spec fn keywords(&self) -> Seq<Seq<char>> {
        views(self.keywords@)
    }

    pub closed spec fn builtins(&self) -> Seq<Seq<char>> {
        views(self.builtins@)
    }

    pub fn new() -> (p: CompletionProvider)
        ensures
            p.keywords() == keyword_list(),
            p.builtins() == builtin_list(),
    {
        let keywords = vec![
            owned("component"), owned("signal"), owned("effect"), owned("computed"), owned("def"), owned("return"),
            owned("if"), owned("else"), owned("for"), owned("in"), owned("while"), owned("import"), owned("from"),
        ];
        let builtins = vec![
            owned("div"), owned("span"), owned("button"), owned("input"), owned("form"), owned("h1"), owned("h2"),
            owned("h3"), owned("p"), owned("a"), owned("img"), owned("ul"), owned("li"),
        ];
        let p = CompletionProvider { keywords, builtins };
        assert(p.keywords() =~= keyword_list());
        assert(p.builtins() =~= builtin_list());
        p
    }

    /// Every keyword, then every HTML element.
    pub fn get_completions(&self) -> (r: Vec<CompletionItem>)
        ensures
            r@.map_values(|i: CompletionItem| item_view(i)) == self.keywords().map_values(|k: Seq<char>| keyword_item(k))
                + self.builtins().map_values(|b: Seq<char>| builtin_item(b)),
    {
        let mut items: Vec<CompletionItem> = Vec::new();
        let mut i: usize = 0;
        while i < self.keywords.len()
            invariant
                i <= self.keywords@.len(),
                items@.map_values(|i: CompletionItem| item_view(i)) == self.keywords().take(i as int).map_values(
                    |k: Seq<char>| keyword_item(k),
                ),
            decreases self.keywords.len() - i,
        {
            let ghost r0 = items@.map_values(|i: CompletionItem| item_view(i));
            items.push(
                CompletionItem {
                    label: owned(self.keywords[i].as_str()),
                    kind: 15,
                    detail: Some(owned("Keyword")),
                    documentation: None,
                },
            );
            assert(items@.map_values(|i: CompletionItem| item_view(i)) =~= r0.push(keyword_item(self.keywords()[i as int])));
            assert(self.keywords().take(i + 1) =~= self.keywords().take(i as int).push(self.keywords()[i as int]));
            assert(self.keywords().take(i + 1).map_values(|k: Seq<char>| keyword_item(k)) =~= self.keywords().take(
                i as int,
            ).map_values(|k: Seq<char>| keyword_item(k)).push(keyword_item(self.keywords()[i as int])));
            i += 1;
        }
        assert(self.keywords().take(i as int) =~= self.keywords());
        let ghost kpart = items@.map_values(|i: CompletionItem| item_view(i));
        let mut j: usize = 0;
        while j < self.builtins.len()
            invariant
                j <= self.builtins@.len(),
                items@.map_values(|i: CompletionItem| item_view(i)) == kpart + self.builtins().take(j as int).map_values(
                    |b: Seq<char>| builtin_item(b),
                ),
            decreases self.builtins.len() - j,
        {
            let ghost r0 = items@.map_values(|i: CompletionItem| item_view(i));
            let mut doc = owned("Creates a <");
            push_string(&mut doc, &self.builtins[j]);
            push_str(&mut doc, "> element");
            items.push(
                CompletionItem {
                    label: owned(self.builtins[j].as_str()),
                    kind: 7,
                    detail: Some(owned("HTML element")),
                    documentation: Some(doc),
                },
            );
            assert(items@.map_values(|i: CompletionItem| item_view(i)) =~= r0.push(builtin_item(self.builtins()[j as int])));
            assert(self.builtins().take(j + 1) =~= self.builtins().take(j as int).push(self.builtins()[j as int]));
            assert(self.builtins().take(j + 1).map_values(|b: Seq<char>| builtin_item(b)) =~= self.builtins().take(
                j as int,
            ).map_values(|b: Seq<char>| builtin_item(b)).push(builtin_item(self.builtins()[j as int])));
            j += 1;
        }
        assert(self.builtins().take(j as int) =~= self.builtins());
        items
    }

    /// The item as it is: nothing is added on resolving.
    pub fn resolve_completion(&self, item: CompletionItem) -> (r: CompletionItem)
        ensures
            r == item,
    {
        item
    }
}

} // verus!
