//! Incremental builds: decide from content hashes whether an input must
//! be rebuilt, and keep the outputs of earlier builds.
use vstd::prelude::*;
use crate::text::{owned, str_eq, views};

pub mod cache;
pub mod hash;

use cache::{CacheManager, lookup, upsert, lemma_lookup_upsert, entry_at, fresh, stale_paths, size_sum};
use hash::{HashCalculator, sha256_hex};

verus! {

/// Hits, misses, stored size and entry count of the cache.
#[derive(Debug, Clone, Copy, PartialEq, Eq)]
pub struct CacheStats {
    pub hits: u64,
    pub misses: u64,
    pub size_bytes: u64,
    pub file_count: u64,
}

impl CacheStats {
    pub open spec fn zero() -> CacheStats {
        CacheStats { hits: 0, misses: 0, size_bytes: 0, file_count: 0 }
    }
}

impl Default for CacheStats {
    fn default() -> (s: CacheStats)
        ensures
            s == CacheStats::zero(),
    {
        CacheStats { hits: 0, misses: 0, size_bytes: 0, file_count: 0 }
    }
}

/// A built output file.
#[derive(Debug, Clone)]
pub struct BuildArtifact {
    pub path: String,
    pub hash: String,
    pub size: u64,
    pub modified: u64,
}

pub struct IncrementalCompiler {
    cache_dir: String,
    cache_manager: CacheManager,
    hash_calculator: HashCalculator,
    file_hashes: Vec<(String, String)>,
    last_build_time: u64,
}

pub open spec fn pair_views(s: Seq<(String, String)>) -> Seq<(Seq<char>, Seq<char>)> {
    s.map_values(|p: (String, String)| (p.0@, p.1@))
}

impl IncrementalCompiler {
    pub closed spec fn manager(&self) -> CacheManager {
        self.cache_manager
    }

    pub closed spec fn calculator(&self) -> HashCalculator {
        self.hash_calculator
    }

    /// The hash seen for each path when it last needed a rebuild.
    pub closed spec fn seen(&self) -> Seq<(Seq<char>, Seq<char>)> {
        pair_views(self.file_hashes@)
    }

    /// A compiler over a cache directory and its index.
    pub fn with_manager(cache_dir: String, cache_manager: CacheManager) -> (c: IncrementalCompiler)
        ensures
            c.dir() == cache_dir@,
            c.manager() == cache_manager,
            c.calculator().known() == Map::<Seq<char>, Seq<char>>::empty(),
            c.seen().len() == 0,
    {
        let c = IncrementalCompiler {
            cache_dir,
            cache_manager,
            hash_calculator: HashCalculator::new(),
            file_hashes: Vec::new(),
            last_build_time: 0,
        };
        assert(c.seen() =~= seq![]);
        c
    }

    /// Whether the input at `input_path`, with contents `content`, must be
    /// rebuilt: its hash (the one already known for the path, else that of
    /// the contents) differs from the cached one. The hash is then noted.
    pub fn needs_rebuild(&mut self, input_path: &str, content: &[u8]) -> (b: bool)
        ensures
            ({
                let known = old(self).calculator().known();
                let h = if known.contains_key(input_path@) { known[input_path@] } else { sha256_hex(content@) };
                let cached = lookup(old(self).manager().entries(), input_path@);
                &&& b == !(cached matches Some(e) && e.0 == h)
                &&& b ==> final(self).seen() == upsert(old(self).seen(), input_path@, h)
                &&& !b ==> final(self).seen() == old(self).seen()
                &&& final(self).calculator().known() == known.insert(input_path@, h)
            }),
            final(self).manager() == old(self).manager(),
            final(self).dir() == old(self).dir(),
    {
        let current_hash = self.hash_calculator.hash_file_content(input_path, content);
        let cached_hash = self.cache_manager.get_hash(input_path);
        let same = match &cached_hash {
            Some(c) => str_eq(c.as_str(), current_hash.as_str()),
            None => false,
        };
        if !same {
            self.note_hash(input_path, current_hash);
            return true;
        }
        false
    }

    fn note_hash(&mut self, path: &str, hash: String)
        ensures
            final(self).seen() == upsert(old(self).seen(), path@, hash@),
            final(self).cache_manager == old(self).cache_manager,
            final(self).hash_calculator == old(self).hash_calculator,
            final(self).cache_dir == old(self).cache_dir,
    {
        let ghost v0 = self.seen();
        let mut i: usize = 0;
        while i < self.file_hashes.len()
            invariant
                i <= self.file_hashes.len(),
                v0 == self.seen(),
                v0 == old(self).seen(),
                self.cache_manager == old(self).cache_manager,
                self.hash_calculator == old(self).hash_calculator,
                self.cache_dir == old(self).cache_dir,
                forall|j: int| 0 <= j < i ==> self.seen()[j].0 != path@,
            decreases self.file_hashes.len() - i,
        {
            assert(self.seen()[i as int].0 == self.file_hashes@[i as int].0@);
            if str_eq(self.file_hashes[i].0.as_str(), path) {
                proof {
                    cache::lemma_pos_of(v0, path@);
                    lemma_first(v0, path@, i as int);
                }
                let ghost h = hash@;
                self.file_hashes.set(i, (owned(path), hash));
                assert(self.seen() =~= v0.update(i as int, (path@, h)));
                return;
            }
            i += 1;
        }
        proof {
            lemma_first(v0, path@, self.file_hashes.len() as int);
        }
        let ghost h = hash@;
        self.file_hashes.push((owned(path), hash));
        assert(self.seen() =~= v0.push((path@, h)));
    }

    /// The cached output for `input_path`, if any (counted as a hit or a
    /// miss).
    pub fn get_cached_output(&mut self, input_path: &str) -> (r: Option<Vec<u8>>)
        ensures
            final(self).manager().entries() == old(self).manager().entries(),
            final(self).manager().dir() == old(self).manager().dir(),
            final(self).calculator() == old(self).calculator(),
            final(self).seen() == old(self).seen(),
            final(self).dir() == old(self).dir(),
            match lookup(old(self).manager().entries(), input_path@) {
                Some(e) => r matches Some(o) && o@ == e.1 && final(self).manager().stats_view() == (CacheStats {
                    hits: if old(self).manager().stats_view().hits == u64::MAX {
                        0
                    } else {
                        (old(self).manager().stats_view().hits + 1) as u64
                    },
                    ..old(self).manager().stats_view()
                }),
                None => r is None && final(self).manager().stats_view() == (CacheStats {
                    misses: if old(self).manager().stats_view().misses == u64::MAX {
                        0
                    } else {
                        (old(self).manager().stats_view().misses + 1) as u64
                    },
                    ..old(self).manager().stats_view()
                }),
            },
    {
        self.cache_manager.get_output(input_path)
    }

    /// Stores `output` for `input_path` under the hash noted for it, or
    /// the hash of the output when none was noted.
    pub fn store_output(&mut self, input_path: &str, output: &[u8])
        ensures
            exists|t: int|
                final(self).manager().entries() == upsert(
                    old(self).manager().entries(),
                    input_path@,
                    #[trigger] entry_at(
                        cache::hash_or(lookup(old(self).seen(), input_path@), output@),
                        output@,
                        t,
                    ),
                ),
    {
        let hash = self.noted_hash(input_path);
        self.cache_manager.store_output(input_path, output, hash);
    }

    fn noted_hash(&self, path: &str) -> (r: Option<String>)
        ensures
            match lookup(self.seen(), path@) {
                Some(h) => r matches Some(x) && x@ == h,
                None => r is None,
            },
    {
        let mut i: usize = 0;
        while i < self.file_hashes.len()
            invariant
                i <= self.file_hashes.len(),
                forall|j: int| 0 <= j < i ==> self.seen()[j].0 != path@,
            decreases self.file_hashes.len() - i,
        {
            assert(self.seen()[i as int] == (self.file_hashes@[i as int].0@, self.file_hashes@[i as int].1@));
            if str_eq(self.file_hashes[i].0.as_str(), path) {
                proof {
                    lemma_first(self.seen(), path@, i as int);
                }
                return Some(self.file_hashes[i].1.clone());
            }
            i += 1;
        }
        proof {
            lemma_first(self.seen(), path@, self.file_hashes.len() as int);
        }
        None
    }

    /// Drops the cache entries older than thirty days and forgets the noted
    /// hashes; the paths whose cache files are to be removed.
    pub fn clean_cache(&mut self) -> (removed: Vec<String>)
        ensures
            final(self).seen().len() == 0,
            exists|now: int|
                final(self).manager().entries() == #[trigger] fresh(old(self).manager().entries(), now) && views(
                    removed@,
                ) == stale_paths(old(self).manager().entries(), now),
            final(self).manager().stats_view().size_bytes == size_sum(final(self).manager().entries()),
            final(self).manager().stats_view().file_count == final(self).manager().entries().len(),
            final(self).manager().stats_view().hits == old(self).manager().stats_view().hits,
            final(self).manager().stats_view().misses == old(self).manager().stats_view().misses,
            final(self).manager().dir() == old(self).manager().dir(),
            final(self).calculator() == old(self).calculator(),
            final(self).dir() == old(self).dir(),
    {
        let ghost e0 = self.cache_manager.entries();
        let removed = self.cache_manager.clean();
        let ghost now = choose|now: int|
            self.cache_manager.entries() == #[trigger] fresh(e0, now) && views(removed@) == stale_paths(e0, now);
        self.file_hashes = Vec::new();
        assert(e0 == old(self).manager().entries());
        assert(self.manager().entries() == fresh(old(self).manager().entries(), now) && views(removed@) == stale_paths(
            old(self).manager().entries(),
            now,
        ));
        assert(self.seen() =~= seq![]);
        removed
    }

    pub fn get_cache_stats(&self) -> (s: CacheStats)
        ensures
            s == self.manager().stats_view(),
    {
        self.cache_manager.get_stats()
    }

    /// The cache manager, for writing the cache to disk.
    pub fn cache_manager(&self) -> (m: &CacheManager)
        ensures
            *m == self.manager(),
    {
        &self.cache_manager
    }

    pub closed spec fn dir(&self) -> Seq<char> {
        self.cache_dir@
    }

    /// The directory the compiler was made for.
    pub fn cache_dir(&self) -> (r: &str)
        ensures
            r@ == self.dir(),
    {
        self.cache_dir.as_str()
    }
}

proof fn lemma_first(s: Seq<(Seq<char>, Seq<char>)>, k: Seq<char>, i: int)
    requires
        0 <= i <= s.len(),
        forall|j: int| 0 <= j < i ==> s[j].0 != k,
        i < s.len() ==> s[i].0 == k,
    ensures
        cache::pos_of(s, k) == if i < s.len() { Some(i) } else { None },
    decreases i,
{
    if i > 0 {
        assert forall|j: int| 0 <= j < i - 1 implies s.drop_first()[j].0 != k by {
            assert(s.drop_first()[j] == s[j + 1]);
        }
        if i < s.len() {
            assert(s.drop_first()[i - 1] == s[i]);
        }
        lemma_first(s.drop_first(), k, i - 1);
    }
}

} // verus!
