//! A compiler for a small component language with signals: lexing,
//! parsing, analysis, optimisation and code generation, with the CSS,
//! bundling and editor-support pieces around it.
use vstd::prelude::*;

pub mod text;
pub mod ast;
pub mod parser;
pub mod analyzer;
pub mod codegen;
pub mod optimizer;
pub mod incremental;
pub mod css;
pub mod bundler;
pub mod lsp;

use crate::text::{owned, chars_of, string_from, trim, trim_chars, split, split_char, lines, lines_of, starts_with,
    is_prefix};
use crate::ast::{Program, Component, BinaryOp};

verus! {

/// Options of a compilation.
#[derive(Debug, Clone)]
pub struct CompilerConfig {
    pub sourcemap: bool,
    pub minify: bool,
    pub target: String,
    pub hmr: bool,
    pub optimize: bool,
    pub output_dir: String,
}

impl CompilerConfig {
    /// The default options: source maps and optimisation on, no
    /// minification or hot reload, target `es2020`, output under `dist`.
    pub fn default() -> (c: CompilerConfig)
        ensures
            CompilerConfig::is_default(c),
    {
        CompilerConfig {
            sourcemap: true,
            minify: false,
            target: owned("es2020"),
            hmr: false,
            optimize: true,
            output_dir: owned("dist"),
        }
    }

    /// The default options.
    pub open spec fn is_default(c: CompilerConfig) -> bool {
        c.sourcemap && !c.minify && !c.hmr && c.optimize && c.target@ == "es2020"@ && c.output_dir@ == "dist"@
    }

    pub fn copy(&self) -> (c: CompilerConfig)
        ensures
            c == *self,
    {
        CompilerConfig {
            sourcemap: self.sourcemap,
            minify: self.minify,
            target: self.target.clone(),
            hmr: self.hmr,
            optimize: self.optimize,
            output_dir: self.output_dir.clone(),
        }
    }
}


/// A compiler for one source file.
pub struct Compiler {
    source: String,
    source_path: String,
    output_path: String,
    config: CompilerConfig,
}

/// Counts over a parsed source.
#[derive(Debug, Clone, Copy)]
pub struct CompileAnalysis {
    pub signal_count: usize,
    pub component_count: usize,
    pub effect_count: usize,
    pub line_count: usize,
    pub import_count: usize,
}

/// The path in an import line: the text after the first double quote up
/// to the next one, else the same with single quotes.
pub open spec fn import_path(line: Seq<char>) -> Option<Seq<char>> {
    if split(line, '"').len() > 1 {
        Some(split(line, '"')[1])
    } else if split(line, '\'').len() > 1 {
        Some(split(line, '\'')[1])
    } else {
        None
    }
}

/// A line that names a dependency: trimmed, it starts with `import` or
/// `from` and holds a quoted path.
pub open spec fn line_deps(ls: Seq<Seq<char>>) -> Seq<Seq<char>>
    decreases ls.len(),
{
    if ls.len() == 0 {
        seq![]
    } else {
        let t = trim(ls.last());
        let rest = line_deps(ls.drop_last());
        if starts_with(t, "import"@) || starts_with(t, "from"@) {
            match import_path(t) {
                Some(p) => rest.push(p),
                None => rest,
            }
        } else {
            rest
        }
    }
}

/// The number of signals (or effects) over the components, modulo the
/// word size.
pub open spec fn signal_total(s: Seq<Component>) -> int
    decreases s.len(),
{
    if s.len() == 0 { 0 } else { (signal_total(s.drop_last()) + s.last().signals@.len()) % (usize::MAX + 1) }
}

proof fn lemma_totals_zero(s: Seq<Component>)
    requires
        forall|i: int| 0 <= i < s.len() ==> (#[trigger] s[i]).signals@.len() == 0 && s[i].effects@.len() == 0,
    ensures
        signal_total(s) == 0,
        effect_total(s) == 0,
    decreases s.len(),
{
    if s.len() > 0 {
        let d = s.drop_last();
        assert forall|i: int| 0 <= i < d.len() implies (#[trigger] d[i]).signals@.len() == 0 && d[i].effects@.len()
            == 0 by {
            assert(d[i] == s[i]);
        }
        lemma_totals_zero(d);
        assert(s.last() == s[s.len() - 1]);
    }
}

pub open spec fn effect_total(s: Seq<Component>) -> int
    decreases s.len(),
{
    if s.len() == 0 { 0 } else { (effect_total(s.drop_last()) + s.last().effects@.len()) % (usize::MAX + 1) }
}

fn add_wrapping(a: usize, b: usize) -> (r: usize)
    ensures
        r as int == (a + b) % (usize::MAX + 1),
{
    let r = a.wrapping_add(b);
    assert(r as int == (a + b) % (usize::MAX + 1)) by (nonlinear_arith)
        requires
            r as int == if a + b > usize::MAX { a + b - (usize::MAX + 1) } else { a + b },
            a <= usize::MAX,
            b <= usize::MAX,
    ;
    r
}

/// `r` is what building the parsed program `p` under `config` gives:
/// the analysis errors if any, else the page for `p` (optimised first
/// where `config` says so; an error where inlining would not end).
pub open spec fn built<B: Fn(BinaryOp, String, String) -> String, G: Fn(String) -> String>(bin: B, neg: G, p: Program, config: CompilerConfig, r: Result<String, String>) -> bool {
    let errs = analyzer::analysis_errs(p);
    if errs.len() > 0 {
        r matches Err(e) && e@ == analyzer::failed_msg(errs)
    } else {
        exists|o: Option<Program>|
            {
                &&& #[trigger] optimizer::optimizes(bin, neg, p, config, o)
                &&& match o {
                    Some(q) => r matches Ok(js) && js@ == codegen::page_of(q, config),
                    None => r matches Err(e) && e@ == "Optimization failed: inlining does not end"@,
                }
            }
    }
}

impl Compiler {
    pub closed spec fn source(&self) -> Seq<char> {
        self.source@
    }

    pub closed spec fn config(&self) -> CompilerConfig {
        self.config
    }

    /// The source is small enough to lex.
    pub open spec fn wf(&self) -> bool {
        self.source().len() + 2 <= usize::MAX
    }

    /// A compiler for `source`, read from `source_path`, writing to
    /// `output_path`, with the default options.
    pub fn from_source(source: String, source_path: String, output_path: String) -> (c: Compiler)
        requires
            source@.len() + 2 <= usize::MAX,
        ensures
            c.wf(),
            c.source() == source@,
            c.input_path() == source_path@,
            c.target_path() == output_path@,
            CompilerConfig::is_default(c.config()),
    {
        Compiler { source, source_path, output_path, config: CompilerConfig::default() }
    }

    pub fn with_config(self, config: CompilerConfig) -> (c: Compiler)
        ensures
            c.source() == self.source(),
            c.input_path() == self.input_path(),
            c.target_path() == self.target_path(),
            c.config() == config,
    {
        let mut c = self;
        c.config = config;
        c
    }

    pub fn source_text(&self) -> (s: &str)
        ensures
            s@ == self.source(),
    {
        self.source.as_str()
    }

    pub closed spec fn input_path(&self) -> Seq<char> {
        self.source_path@
    }

    pub closed spec fn target_path(&self) -> Seq<char> {
        self.output_path@
    }

    /// The path the source was read from.
    pub fn source_path(&self) -> (r: &str)
        ensures
            r@ == self.input_path(),
    {
        self.source_path.as_str()
    }

    /// The path the page is written to.
    pub fn output_path(&self) -> (r: &str)
        ensures
            r@ == self.target_path(),
    {
        self.output_path.as_str()
    }

    pub fn config_ref(&self) -> (c: &CompilerConfig)
        ensures
            *c == self.config(),
    {
        &self.config
    }

    /// The JavaScript page for the source: parsed (number literals shown
    /// by `num`), analysed, optimised where the options say so (with `bin`
    /// and `neg` for arithmetic on numbers), and generated; or the message
    /// of the step that failed.
    pub fn build<B: Fn(BinaryOp, String, String) -> String, G: Fn(String) -> String, N: Fn(String) -> String>(
        &self,
        bin: &B,
        neg: &G,
        num: &N,
    ) -> (r: Result<String, String>)
        requires
            self.wf(),
            optimizer::constant::arith_ok(*bin, *neg),
            parser::shows_ok(*num),
        ensures
            parser::rules::p_all(parser::shown_tokens(*num, parser::token::tokens_of(self.source()))) matches Err(m)
                ==> r matches Err(e) && e@ == m,
            parser::rules::p_all(parser::shown_tokens(*num, parser::token::tokens_of(self.source()))) is Ok ==> exists|p: Program|
                {
                    &&& #[trigger] parser::rules::program_tree(p) == parser::rules::p_all(
                        parser::shown_tokens(*num, parser::token::tokens_of(self.source())),
                    )->Ok_0
                    &&& built(*bin, *neg, p, self.config(), r)
                },
    {
        let parsed = match parser::parse(self.source.as_str(), num) {
            Ok(p) => p,
            Err(e) => return Err(e),
        };
        let ghost p0 = parsed;
        let checked = match analyzer::analyze(parsed) {
            Ok(p) => p,
            Err(e) => {
                assert(built(*bin, *neg, p0, self.config(), Err(e)));
                return Err(e);
            },
        };
        let optimized = if self.config.optimize {
            match optimizer::optimize(checked, &self.config, bin, neg) {
                Some(q) => q,
                None => {
                    let r = Err(owned("Optimization failed: inlining does not end"));
                    assert(built(*bin, *neg, p0, self.config(), r));
                    return r;
                },
            }
        } else {
            checked
        };
        let ghost o = Some(optimized);
        assert(optimizer::optimizes(*bin, *neg, p0, self.config(), o));
        let js = codegen::generate(optimized, &self.config);
        assert(built(*bin, *neg, p0, self.config(), Ok(js)));
        Ok(js)
    }

    /// The paths named by the import lines of the source, in order.
    pub fn get_dependencies(&self) -> (r: Result<Vec<String>, String>)
        ensures
            r matches Ok(v) && v@.len() == line_deps(lines(self.source())).len() && forall|i: int|
                0 <= i < v@.len() ==> #[trigger] v@[i]@ == line_deps(lines(self.source()))[i],
    {
        let cs = chars_of(self.source.as_str());
        let ls = lines_of(cs.as_slice());
        let import_kw = chars_of("import");
        let from_kw = chars_of("from");
        let mut deps: Vec<String> = Vec::new();
        let mut i: usize = 0;
        while i < ls.len()
            invariant
                i <= ls.len(),
                cs@ == self.source(),
                ls@.len() == lines(self.source()).len(),
                forall|k: int| 0 <= k < ls@.len() ==> #[trigger] ls@[k]@ == lines(self.source())[k],
                import_kw@ == "import"@,
                from_kw@ == "from"@,
                deps@.len() == line_deps(lines(self.source()).take(i as int)).len(),
                forall|k: int| 0 <= k < deps@.len() ==> #[trigger] deps@[k]@ == line_deps(lines(self.source()).take(i as int))[k],
            decreases ls.len() - i,
        {
            let ghost t = lines(self.source()).take(i + 1);
            assert(t.drop_last() =~= lines(self.source()).take(i as int));
            assert(t.last() == ls@[i as int]@);
            let trimmed = trim_chars(ls[i].as_slice());
            if is_prefix(trimmed.as_slice(), import_kw.as_slice()) || is_prefix(trimmed.as_slice(), from_kw.as_slice()) {
                match self.extract_import_path(trimmed.as_slice()) {
                    Some(path) => {
                        deps.push(path);
                    }
                    None => {}
                }
            }
            i += 1;
        }
        assert(lines(self.source()).take(ls.len() as int) =~= lines(self.source()));
        Ok(deps)
    }

    fn extract_import_path(&self, line: &[char]) -> (r: Option<String>)
        ensures
            match import_path(line@) {
                Some(p) => r matches Some(s) && s@ == p,
                None => r is None,
            },
    {
        let parts = split_char(line, '"');
        if parts.len() > 1 {
            return Some(string_from(parts[1].as_slice()));
        }
        let parts = split_char(line, '\'');
        if parts.len() > 1 {
            return Some(string_from(parts[1].as_slice()));
        }
        None
    }

    /// Parses the source and counts its components, signals, effects,
    /// lines and imports; fails as parsing fails.
    pub fn analyze(&self) -> (r: Result<CompileAnalysis, String>)
        requires
            self.wf(),
        ensures
            match parser::rules::p_all(parser::token::tokens_of(self.source())) {
                Ok(pt) => r matches Ok(a) && a.component_count == pt.0.len() && a.signal_count == 0
                    && a.effect_count == 0 && a.line_count == lines(self.source()).len() && a.import_count
                    == pt.2.len(),
                Err(m) => r matches Err(e) && e@ == m,
            },
    {
        let ast = parser::parse_as_written(self.source.as_str())?;
        let ghost pt = parser::rules::program_tree(ast);
        proof {
            let t = parser::token::tokens_of(self.source());
            assert(parser::rules::p_all(t) == Ok::<parser::rules::ProgramTree, Seq<char>>(pt));
            parser::rules::lemma_parsed_program_bare(t, pt);
            assert(pt.0 == ast.components@.map_values(|c: Component| parser::rules::component_tree(c)));
            assert forall|i: int| 0 <= i < ast.components@.len() implies (#[trigger] ast.components@[i]).signals@.len()
                == 0 && ast.components@[i].effects@.len() == 0 by {
                assert(pt.0[i] == parser::rules::component_tree(ast.components@[i]));
            }
            lemma_totals_zero(ast.components@);
        }
        Ok(CompileAnalysis::of(&ast, self.source.as_str()))
    }
}

impl CompileAnalysis {
    /// The counts for a parsed program and its source text.
    pub fn of(ast: &Program, source: &str) -> (a: CompileAnalysis)
        ensures
            a.component_count == ast.components@.len(),
            a.signal_count == signal_total(ast.components@),
            a.effect_count == effect_total(ast.components@),
            a.line_count == lines(source@).len(),
            a.import_count == ast.imports@.len(),
    {
        let mut signal_count: usize = 0;
        let mut component_count: usize = 0;
        let mut effect_count: usize = 0;
        let cs = chars_of(source);
        let line_count = lines_of(cs.as_slice()).len();
        let mut i: usize = 0;
        while i < ast.components.len()
            invariant
                i <= ast.components.len(),
                component_count == i,
                signal_count == signal_total(ast.components@.take(i as int)),
                effect_count == effect_total(ast.components@.take(i as int)),
            decreases ast.components.len() - i,
        {
            assert(ast.components@.take(i + 1).drop_last() =~= ast.components@.take(i as int));
            component_count += 1;
            signal_count = add_wrapping(signal_count, ast.components[i].signals.len());
            effect_count = add_wrapping(effect_count, ast.components[i].effects.len());
            i += 1;
        }
        assert(ast.components@.take(ast.components.len() as int) =~= ast.components@);
        CompileAnalysis { signal_count, component_count, effect_count, line_count, import_count: ast.imports.len() }
    }
}

} // verus!
