//! Code generation: JavaScript, CSS, HTML and source maps, and the page
//! that puts them together.
use vstd::prelude::*;
use vstd::utf8::encode_utf8;
use base64::Engine;
use crate::ast::Program;
use crate::CompilerConfig;
use crate::text::{owned, push_str, push_string, lines};

pub mod js;
pub mod css;
pub mod html;
pub mod sourcemap;

use js::{JSGenerator, program_js};
use css::{CSSGenerator, blocks_css};
use html::{HTMLGenerator, page_html};
use sourcemap::{SourceMapGenerator, b64, map_json, encoded, bound};

verus! {

/// Standard base64 with padding, three bytes to four digits.
pub open spec fn base64_of(b: Seq<u8>) -> Seq<char>
    decreases b.len(),
{
    let x: int = if b.len() > 0 { b[0] as int } else { 0 };
    let y: int = if b.len() > 1 { b[1] as int } else { 0 };
    let z: int = if b.len() > 2 { b[2] as int } else { 0 };
    if b.len() == 0 {
        seq![]
    } else if b.len() == 1 {
        seq![b64(x / 4), b64((x % 4) * 16), '=', '=']
    } else if b.len() == 2 {
        seq![b64(x / 4), b64((x % 4) * 16 + y / 16), b64((y % 16) * 4), '=']
    } else {
        seq![b64(x / 4), b64((x % 4) * 16 + y / 16), b64((y % 16) * 4 + z / 64), b64(z % 64)] + base64_of(b.skip(3))
    }
}

/// The base64 text of the UTF-8 bytes of `data`. Calls `encode` of
/// `base64`'s standard engine (standard alphabet, `=` padding); the
/// contract states that encoding. The length bound keeps the output size
/// from overflowing, where the engine would panic.
#[verifier::external_body]
fn base64_encode(data: &str) -> (r: String)
    requires
        encode_utf8(data@).len() <= usize::MAX / 2,
    ensures
        r@ == base64_of(encode_utf8(data@)),
{
    base64::engine::general_purpose::STANDARD.encode(data)
}

/// The page: the style block when there is CSS, the HTML, the module
/// script, and the inline source map comment when `map` is given.
pub open spec fn page(js: Seq<char>, css: Seq<char>, html: Seq<char>, map: Option<Seq<char>>) -> Seq<char> {
    (if css.len() > 0 { "<style>"@ + css + "</style>\n"@ } else { seq![] }) + html + "\n<script type=\"module\">\n"@
        + js + "\n</script>\n"@ + match map {
        Some(m) => "//# sourceMappingURL=data:application/json;base64,"@ + base64_of(encode_utf8(m)) + "\n"@,
        None => seq![],
    }
}

/// The inline map that is written: the map's JSON when maps are on and its
/// bytes are few enough to encode.
pub open spec fn inline_map(on: bool, json: Seq<char>) -> Option<Seq<char>> {
    if on && encode_utf8(json).len() <= usize::MAX / 2 { Some(json) } else { None }
}

pub struct CodeGenerator {
    js_gen: JSGenerator,
    html_gen: HTMLGenerator,
    css_gen: CSSGenerator,
    sourcemap_gen: SourceMapGenerator,
    config: CompilerConfig,
}

impl CodeGenerator {
    pub closed spec fn js_depth(&self) -> int {
        self.js_gen.depth()
    }

    pub closed spec fn css_depth(&self) -> int {
        self.css_gen.depth()
    }

    pub closed spec fn css_counter(&self) -> int {
        self.css_gen.counter()
    }

    pub closed spec fn html_depth(&self) -> int {
        self.html_gen.depth()
    }

    pub closed spec fn map_json(&self) -> Seq<char> {
        map_json(self.sourcemap_gen.srcs(), self.sourcemap_gen.nms(), encoded(self.sourcemap_gen.maps()))
    }

    pub closed spec fn config(&self) -> CompilerConfig {
        self.config
    }

    pub closed spec fn wf(&self) -> bool {
        self.sourcemap_gen.wf()
    }

    pub fn new(config: &CompilerConfig) -> (g: CodeGenerator)
        ensures
            g.wf(),
            g.js_depth() == 0,
            g.css_depth() == 0,
            g.css_counter() == 0,
            g.html_depth() == 0,
            g.map_json() == map_json(seq![], seq![], encoded(seq![])),
            g.config() == *config,
    {
        let g = CodeGenerator {
            js_gen: JSGenerator::new(config),
            html_gen: HTMLGenerator::new(),
            css_gen: CSSGenerator::new(),
            sourcemap_gen: SourceMapGenerator::new(),
            config: config.copy(),
        };
        assert(g.sourcemap_gen.srcs() =~= seq![]);
        assert(g.sourcemap_gen.nms() =~= seq![]);
        assert(g.sourcemap_gen.maps() =~= seq![]);
        g
    }

    /// The page for `program`.
    #[verifier::rlimit(40)]
    pub fn generate(&mut self, program: Program) -> (r: String)
        requires
            old(self).wf(),
        ensures
            final(self).wf(),
            r@ == page(
                program_js(old(self).js_depth(), program),
                blocks_css(old(self).css_depth(), old(self).css_counter(), program.css@).0,
                page_html(old(self).html_depth(), program),
                inline_map(old(self).config().sourcemap, old(self).map_json()),
            ),
            final(self).css_counter() == blocks_css(old(self).css_depth(), old(self).css_counter(), program.css@).1,
            final(self).js_depth() == old(self).js_depth(),
            final(self).css_depth() == old(self).css_depth(),
            final(self).html_depth() == old(self).html_depth(),
            final(self).map_json() == old(self).map_json(),
            final(self).config() == old(self).config(),
    {
        let mut output = String::new();
        let js = self.js_gen.generate(&program);
        let css = self.css_gen.generate(&program);
        let html = self.html_gen.generate(&program);
        if !css.as_str().is_empty() {
            push_str(&mut output, "<style>");
            push_string(&mut output, &css);
            push_str(&mut output, "</style>\n");
        }
        push_string(&mut output, &html);
        push_str(&mut output, "\n<script type=\"module\">\n");
        push_string(&mut output, &js);
        push_str(&mut output, "\n</script>\n");
        if self.config.sourcemap {
            let map = self.sourcemap_gen.generate(js.as_str());
            if map.as_str().as_bytes().len() <= usize::MAX / 2 {
                push_str(&mut output, "//# sourceMappingURL=data:application/json;base64,");
                let enc = base64_encode(map.as_str());
                push_string(&mut output, &enc);
                push_str(&mut output, "\n");
            }
        }
        assert(output@ =~= page(
            program_js(old(self).js_depth(), program),
            blocks_css(old(self).css_depth(), old(self).css_counter(), program.css@).0,
            page_html(old(self).html_depth(), program),
            inline_map(old(self).config().sourcemap, old(self).map_json()),
        ));
        output
    }

    pub fn generate_js_only(&mut self, program: Program) -> (r: String)
        ensures
            r@ == program_js(old(self).js_depth(), program),
            final(self).js_depth() == old(self).js_depth(),
    {
        self.js_gen.generate(&program)
    }

    pub fn generate_css_only(&mut self, program: Program) -> (r: String)
        ensures
            r@ == blocks_css(old(self).css_depth(), old(self).css_counter(), program.css@).0,
            final(self).css_counter() == blocks_css(old(self).css_depth(), old(self).css_counter(), program.css@).1,
            final(self).css_depth() == old(self).css_depth(),
    {
        self.css_gen.generate(&program)
    }

    pub fn generate_html_only(&mut self, program: Program) -> (r: String)
        ensures
            r@ == page_html(old(self).html_depth(), program),
            final(self).html_depth() == old(self).html_depth(),
    {
        self.html_gen.generate(&program)
    }
}

/// The page that a new generator makes for `program` under `config`.
pub open spec fn page_of(program: Program, config: CompilerConfig) -> Seq<char> {
    page(
        program_js(0, program),
        blocks_css(0, 0, program.css@).0,
        page_html(0, program),
        inline_map(config.sourcemap, map_json(seq![], seq![], encoded(seq![]))),
    )
}

/// The page for `program` with a new generator.
pub fn generate(program: Program, config: &CompilerConfig) -> (r: String)
    ensures
        r@ == page_of(program, *config),
{
    let mut generator = CodeGenerator::new(config);
    generator.generate(program)
}

/// A line-by-line source map from `output` back to `source`.
pub fn generate_sourcemap(source: &str, output: &str) -> (r: String)
    requires
        lines(output@).len() <= bound(),
    ensures
        r@ == map_json(
            seq!["input.pys"@],
            seq![],
            encoded(
                sourcemap::line_mappings(
                    sourcemap::min(lines(output@).len() as int, lines(source@).len() as int) as nat,
                ),
            ),
        ),
{
    SourceMapGenerator::generate_from_strings(source, output)
}

} // verus!
