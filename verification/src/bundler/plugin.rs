//! Plugins that see the chunks before they are written.
use vstd::prelude::*;
use crate::text::{chars_of, lines, lines_of, trim, trim_chars, starts_with, string_from, push_chars, is_prefix};
use super::chunk::ChunkManager;

verus! {

/// A step of the bundle that may change the chunks. Implemented by users
/// of the library as well as by the plugins below; nothing is promised of
/// an implementation.
pub trait Plugin {
    /// The plugin's name.
    fn name(&self) -> &str;

    /// Works on the chunks.
    fn transform(&self, chunk_manager: &mut ChunkManager) -> Result<(), String>;

    /// Runs before bundling; does nothing unless overridden.
    fn before_bundle(&self) -> Result<(), String> {
        Ok(())
    }

    /// Runs after bundling; does nothing unless overridden.
    fn after_bundle(&self) -> Result<(), String> {
        Ok(())
    }
}

/// The lines of `code`, trimmed, without the empty ones and those that
/// start with `//`, joined with nothing between them.
pub open spec fn minified(ls: Seq<Seq<char>>) -> Seq<char>
    decreases ls.len(),
{
    if ls.len() == 0 {
        seq![]
    } else {
        let t = trim(ls.last());
        minified(ls.drop_last()) + if starts_with(t, "//"@) || t.len() == 0 { seq![] } else { t }
    }
}

/// Minifies the code of the chunks; the result is computed and dropped,
/// so the chunks stay as they are.
pub struct MinifyPlugin;

impl MinifyPlugin {
    /// The code without comment lines, each line trimmed and the empty
    /// ones left out, all on one line.
    pub fn minify_js(&self, code: &str) -> (r: String)
        ensures
            r@ == minified(lines(code@)),
    {
        let cs = chars_of(code);
        let ls = lines_of(cs.as_slice());
        let slash: Vec<char> = vec!['/', '/'];
        proof {
            reveal_strlit("//");
        }
        assert(slash@ =~= "//"@);
        let mut result = String::new();
        let mut i: usize = 0;
        while i < ls.len()
            invariant
                cs@ == code@,
                slash@ == "//"@,
                ls@.len() == lines(code@).len(),
                forall|k: int| 0 <= k < ls@.len() ==> #[trigger] ls@[k]@ == lines(code@)[k],
                i <= ls@.len(),
                result@ == minified(lines(code@).take(i as int)),
            decreases ls.len() - i,
        {
            let trimmed = trim_chars(ls[i].as_slice());
            let ghost r0 = result@;
            if !is_prefix(trimmed.as_slice(), slash.as_slice()) && trimmed.len() > 0 {
                push_chars(&mut result, trimmed.as_slice());
            }
            proof {
                let t = lines(code@).take(i + 1);
                assert(t.drop_last() =~= lines(code@).take(i as int));
                assert(t.last() == ls@[i as int]@);
                if starts_with(trim(t.last()), "//"@) || trim(t.last()).len() == 0 {
                    assert(result@ =~= r0 + Seq::<char>::empty());
                }
            }
            i += 1;
        }
        assert(lines(code@).take(ls@.len() as int) =~= lines(code@));
        result
    }
}

impl Plugin for MinifyPlugin {
    fn name(&self) -> (r: &str)
        ensures
            r@ == "minify"@,
    {
        "minify"
    }

    fn transform(&self, chunk_manager: &mut ChunkManager) -> (r: Result<(), String>)
        ensures
            r is Ok,
            final(chunk_manager).chunks() == old(chunk_manager).chunks(),
    {
        let chunks = chunk_manager.get_chunks();
        let mut i: usize = 0;
        while i < chunks.len()
            decreases chunks.len() - i,
        {
            let _minified = self.minify_js(chunks[i].code.as_str());
            i += 1;
        }
        Ok(())
    }
}

/// Leaves the chunks as they are.
pub struct SourceMapPlugin;

impl Plugin for SourceMapPlugin {
    fn name(&self) -> (r: &str)
        ensures
            r@ == "sourcemap"@,
    {
        "sourcemap"
    }

    fn transform(&self, chunk_manager: &mut ChunkManager) -> (r: Result<(), String>)
        ensures
            r is Ok,
            final(chunk_manager).chunks() == old(chunk_manager).chunks(),
    {
        Ok(())
    }
}

/// Leaves the chunks as they are.
pub struct TreeShakePlugin;

impl Plugin for TreeShakePlugin {
    fn name(&self) -> (r: &str)
        ensures
            r@ == "tree-shake"@,
    {
        "tree-shake"
    }

    fn transform(&self, chunk_manager: &mut ChunkManager) -> (r: Result<(), String>)
        ensures
            r is Ok,
            final(chunk_manager).chunks() == old(chunk_manager).chunks(),
    {
        Ok(())
    }
}

} // verus!
