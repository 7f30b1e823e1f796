//! Stylesheet processing: reading CSS, adding vendor prefixes, scoping
//! selectors to a component, and minifying.
use vstd::prelude::*;
use crate::text::views;

pub mod parser;
pub mod minify;
pub mod scoped;
pub mod vendor;

pub use parser::CssParser;
pub use scoped::ScopedCss;
pub use minify::CssMinifier;
pub use vendor::VendorPrefixer;

verus! {

/// A selector with its declarations.
#[derive(Debug)]
pub struct CssRule {
    pub selector: String,
    pub declarations: Vec<CssDeclaration>,
}

#[derive(Debug)]
pub struct CssDeclaration {
    pub property: String,
    pub value: String,
    pub important: bool,
}

#[derive(Debug)]
pub struct Stylesheet {
    pub rules: Vec<CssRule>,
    pub imports: Vec<String>,
}

pub open spec fn decl_view(d: CssDeclaration) -> (Seq<char>, Seq<char>, bool) {
    (d.property@, d.value@, d.important)
}

pub open spec fn decls_view(s: Seq<CssDeclaration>) -> Seq<(Seq<char>, Seq<char>, bool)> {
    s.map_values(|d: CssDeclaration| decl_view(d))
}

pub open spec fn rule_view(r: CssRule) -> (Seq<char>, Seq<(Seq<char>, Seq<char>, bool)>) {
    (r.selector@, decls_view(r.declarations@))
}

pub open spec fn rules_view(s: Seq<CssRule>) -> Seq<(Seq<char>, Seq<(Seq<char>, Seq<char>, bool)>)> {
    s.map_values(|r: CssRule| rule_view(r))
}

/// Parses, prefixes, scopes (when a scope is given) and minifies.
pub struct CssProcessor {
    parser: CssParser,
    scoper: ScopedCss,
    minifier: CssMinifier,
    prefixer: VendorPrefixer,
}

impl CssProcessor {
    /// The counter behind the scope names the processor's scoper makes.
    pub closed spec fn scope_counter(&self) -> int {
        self.scoper.counter()
    }

    /// A processor whose scoper has made no scope name yet.
    pub fn new() -> (p: CssProcessor)
        ensures
            p.scope_counter() == 0,
    {
        CssProcessor {
            parser: CssParser::new(),
            scoper: ScopedCss::new(),
            minifier: CssMinifier::new(),
            prefixer: VendorPrefixer::new(),
        }
    }

    /// The minified CSS of `css`, vendor-prefixed, with its selectors
    /// scoped to `scope` when one is given.
    pub fn process(&mut self, css: &str, scope: Option<&str>) -> (r: Result<String, String>)
        ensures
            r matches Ok(out) && out@ == minify::sheet_min(
                match scope {
                    Some(sc) => scoped::scope_rules(vendor::prefix_rules(parser::parse_css(css@).0), sc@),
                    None => vendor::prefix_rules(parser::parse_css(css@).0),
                },
            ),
    {
        let stylesheet = self.parser.parse(css)?;
        let stylesheet = self.prefixer.process(stylesheet);
        let stylesheet = match scope {
            Some(scope_id) => self.scoper.scope(stylesheet, scope_id),
            None => stylesheet,
        };
        let output = self.minifier.minify(&stylesheet);
        Ok(output)
    }
}

impl Default for CssProcessor {
    fn default() -> (p: CssProcessor) {
        CssProcessor::new()
    }
}

} // verus!
