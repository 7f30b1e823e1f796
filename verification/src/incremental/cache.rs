//! The cache index: per input path, the hash, output, time and size of
//! what was stored. Reading and writing the cache files is left to the
//! caller; this keeps the index and the statistics.
use vstd::prelude::*;
use crate::text::{owned, push_str, push_string, str_eq, views};
use super::hash::{sha256_hex, opt_view};
use super::CacheStats;

verus! {

/// A stored output.
pub struct CacheEntry {
    pub hash: String,
    pub output: Vec<u8>,
    pub timestamp: u64,
    pub size: u64,
}

/// An entry as the contracts see it: hash, output, time, size.
pub open spec fn entry_view(e: CacheEntry) -> (Seq<char>, Seq<u8>, int, int) {
    (e.hash@, e.output@, e.timestamp as int, e.size as int)
}

pub open spec fn index_view(s: Seq<(String, CacheEntry)>) -> Seq<(Seq<char>, (Seq<char>, Seq<u8>, int, int))> {
    s.map_values(|p: (String, CacheEntry)| (p.0@, entry_view(p.1)))
}

/// The first position of `k`.
pub open spec fn pos_of<V>(s: Seq<(Seq<char>, V)>, k: Seq<char>) -> Option<int>
    decreases s.len(),
{
    if s.len() == 0 {
        None
    } else if s[0].0 == k {
        Some(0)
    } else {
        match pos_of(s.drop_first(), k) {
            Some(i) => Some(i + 1),
            None => None,
        }
    }
}

/// The value of `k`, from its first position.
pub open spec fn lookup<V>(s: Seq<(Seq<char>, V)>, k: Seq<char>) -> Option<V> {
    match pos_of(s, k) {
        Some(i) => Some(s[i].1),
        None => None,
    }
}

/// Sets `k` to `v`: in place where `k` is, else at the end.
pub open spec fn upsert<V>(s: Seq<(Seq<char>, V)>, k: Seq<char>, v: V) -> Seq<(Seq<char>, V)> {
    match pos_of(s, k) {
        Some(i) => s.update(i, (k, v)),
        None => s.push((k, v)),
    }
}

pub proof fn lemma_pos_of<V>(s: Seq<(Seq<char>, V)>, k: Seq<char>)
    ensures
        pos_of(s, k) matches Some(i) ==> 0 <= i < s.len() && s[i].0 == k && forall|j: int| 0 <= j < i ==> s[j].0 != k,
        pos_of(s, k) is None ==> forall|j: int| 0 <= j < s.len() ==> s[j].0 != k,
    decreases s.len(),
{
    if s.len() > 0 {
        lemma_pos_of(s.drop_first(), k);
        assert forall|j: int| 1 <= j < s.len() implies s[j] == s.drop_first()[j - 1] by {}
    }
}

/// The first position of `k` in `s`, computed.
proof fn lemma_pos_from_scan<V>(s: Seq<(Seq<char>, V)>, k: Seq<char>, i: int)
    requires
        0 <= i <= s.len(),
        forall|j: int| 0 <= j < i ==> s[j].0 != k,
        i < s.len() ==> s[i].0 == k,
    ensures
        pos_of(s, k) == if i < s.len() { Some(i) } else { None },
    decreases i,
{
    if i > 0 {
        assert forall|j: int| 0 <= j < i - 1 implies s.drop_first()[j].0 != k by {
            assert(s.drop_first()[j] == s[j + 1]);
        }
        if i < s.len() {
            assert(s.drop_first()[i - 1] == s[i]);
        }
        lemma_pos_from_scan(s.drop_first(), k, i - 1);
    }
}

/// Reading back a key gives what was set; other keys are unchanged.
pub proof fn lemma_lookup_upsert<V>(s: Seq<(Seq<char>, V)>, k: Seq<char>, v: V, k2: Seq<char>)
    ensures
        lookup(upsert(s, k, v), k2) == if k2 == k { Some(v) } else { lookup(s, k2) },
{
    lemma_pos_of(s, k);
    lemma_pos_of(s, k2);
    let t = upsert(s, k, v);
    lemma_pos_of(t, k2);
    match pos_of(s, k) {
        Some(i) => {
            if k2 == k {
                lemma_pos_from_scan(t, k2, i);
            } else {
                match pos_of(s, k2) {
                    Some(i2) => {
                        assert(t[i2] == s[i2]);
                        lemma_pos_from_scan(t, k2, i2);
                    }
                    None => {
                        lemma_pos_from_scan(t, k2, t.len() as int);
                    }
                }
            }
        }
        None => {
            if k2 == k {
                lemma_pos_from_scan(t, k2, s.len() as int);
            } else {
                match pos_of(s, k2) {
                    Some(i2) => {
                        assert(t[i2] == s[i2]);
                        lemma_pos_from_scan(t, k2, i2);
                    }
                    None => {
                        lemma_pos_from_scan(t, k2, t.len() as int);
                    }
                }
            }
        }
    }
}

/// The given hash, else the hash of the output.
pub open spec fn hash_or(h: Option<Seq<char>>, out: Seq<u8>) -> Seq<char> {
    match h {
        Some(x) => x,
        None => sha256_hex(out),
    }
}

/// A stored entry: hash, output, time and size.
pub open spec fn entry_at(h: Seq<char>, out: Seq<u8>, t: int) -> (Seq<char>, Seq<u8>, int, int) {
    (h, out, t, out.len() as int)
}

/// Thirty days, in seconds.
pub open spec fn max_age() -> int {
    2592000
}

/// The entries not older than the limit at `now` (an age wraps when the
/// time is before the entry's).
pub open spec fn fresh(s: Seq<(Seq<char>, (Seq<char>, Seq<u8>, int, int))>, now: int) -> Seq<(Seq<char>, (Seq<char>, Seq<u8>, int, int))>
    decreases s.len(),
{
    if s.len() == 0 {
        seq![]
    } else if age(now, s.last().1.2) > max_age() {
        fresh(s.drop_last(), now)
    } else {
        fresh(s.drop_last(), now).push(s.last())
    }
}

pub open spec fn age(now: int, t: int) -> int {
    if now >= t { now - t } else { now - t + 0x1_0000_0000_0000_0000 }
}

/// The paths of the entries older than the limit.
pub open spec fn stale_paths(s: Seq<(Seq<char>, (Seq<char>, Seq<u8>, int, int))>, now: int) -> Seq<Seq<char>>
    decreases s.len(),
{
    if s.len() == 0 {
        seq![]
    } else if age(now, s.last().1.2) > max_age() {
        stale_paths(s.drop_last(), now).push(s.last().0)
    } else {
        stale_paths(s.drop_last(), now)
    }
}

/// The sum of the sizes, modulo 2^64.
pub open spec fn size_sum(s: Seq<(Seq<char>, (Seq<char>, Seq<u8>, int, int))>) -> int
    decreases s.len(),
{
    if s.len() == 0 { 0 } else { (size_sum(s.drop_last()) + s.last().1.3) % 0x1_0000_0000_0000_0000 }
}

/// The seconds since the epoch, by `SystemTime`; 0 when the clock is before
/// the epoch. Nothing is claimed of the value.
#[verifier::external_body]
fn now_secs() -> (t: u64) {
    match std::time::SystemTime::now().duration_since(std::time::UNIX_EPOCH) {
        Ok(d) => d.as_secs(),
        Err(_) => 0,
    }
}

/// Writes `a + b` modulo 2^64.
fn add_wrapping(a: u64, b: u64) -> (r: u64)
    ensures
        r as int == (a + b) % 0x1_0000_0000_0000_0000,
{
    let r = a.wrapping_add(b);
    assert(r as int == (a + b) % 0x1_0000_0000_0000_0000) by (nonlinear_arith)
        requires
            r as int == if a + b > u64::MAX { a + b - 0x1_0000_0000_0000_0000 } else { a + b },
            a <= u64::MAX,
            b <= u64::MAX,
    ;
    r
}

pub struct CacheManager {
    cache_dir: String,
    index: Vec<(String, CacheEntry)>,
    stats: CacheStats,
}

fn copy_entry(e: &CacheEntry) -> (r: CacheEntry)
    ensures
        entry_view(r) == entry_view(*e),
{
    CacheEntry { hash: e.hash.clone(), output: copy_bytes(e.output.as_slice()), timestamp: e.timestamp, size: e.size }
}

fn copy_bytes(b: &[u8]) -> (r: Vec<u8>)
    ensures
        r@ == b@,
{
    let mut r: Vec<u8> = Vec::new();
    let mut i: usize = 0;
    while i < b.len()
        invariant
            i <= b.len(),
            r@ == b@.take(i as int),
        decreases b.len() - i,
    {
        r.push(b[i]);
        assert(b@.take(i + 1) =~= b@.take(i as int).push(b@[i as int]));
        i += 1;
    }
    assert(b@.take(b.len() as int) =~= b@);
    r
}

impl CacheManager {
    pub closed spec fn entries(&self) -> Seq<(Seq<char>, (Seq<char>, Seq<u8>, int, int))> {
        index_view(self.index@)
    }

    pub closed spec fn stats_view(&self) -> CacheStats {
        self.stats
    }

    pub closed spec fn dir(&self) -> Seq<char> {
        self.cache_dir@
    }

    /// A manager over an index read from `cache_dir`, with zero statistics.
    pub fn with_index(cache_dir: String, index: Vec<(String, CacheEntry)>) -> (m: CacheManager)
        ensures
            m.entries() == index_view(index@),
            m.dir() == cache_dir@,
            m.stats_view() == CacheStats::zero(),
    {
        CacheManager { cache_dir, index, stats: CacheStats::default() }
    }

    pub fn cache_dir(&self) -> (r: &str)
        ensures
            r@ == self.dir(),
    {
        self.cache_dir.as_str()
    }

    fn find(&self, path: &str) -> (r: Option<usize>)
        ensures
            r matches Some(i) ==> i < self.index.len(),
            match r {
                Some(i) => pos_of(self.entries(), path@) == Some(i as int),
                None => pos_of(self.entries(), path@) is None,
            },
    {
        let mut i: usize = 0;
        while i < self.index.len()
            invariant
                i <= self.index.len(),
                forall|j: int| 0 <= j < i ==> self.entries()[j].0 != path@,
            decreases self.index.len() - i,
        {
            assert(self.entries()[i as int].0 == self.index@[i as int].0@);
            if str_eq(self.index[i].0.as_str(), path) {
                proof {
                    lemma_pos_from_scan(self.entries(), path@, i as int);
                }
                return Some(i);
            }
            i += 1;
        }
        proof {
            lemma_pos_from_scan(self.entries(), path@, self.index.len() as int);
        }
        None
    }

    /// The hash stored for `path`, if any.
    pub fn get_hash(&self, path: &str) -> (r: Option<String>)
        ensures
            match lookup(self.entries(), path@) {
                Some(e) => r matches Some(h) && h@ == e.0,
                None => r is None,
            },
    {
        match self.find(path) {
            Some(i) => Some(self.index[i].1.hash.clone()),
            None => None,
        }
    }

    /// The output stored for `path`, if any; counts a hit or a miss
    /// (wrapping at the end of `u64`).
    pub fn get_output(&mut self, path: &str) -> (r: Option<Vec<u8>>)
        ensures
            final(self).entries() == old(self).entries(),
            final(self).dir() == old(self).dir(),
            match lookup(old(self).entries(), path@) {
                Some(e) => r matches Some(o) && o@ == e.1 && final(self).stats_view() == (CacheStats {
                    hits: if old(self).stats_view().hits == u64::MAX { 0 } else { (old(self).stats_view().hits + 1) as u64 },
                    ..old(self).stats_view()
                }),
                None => r is None && final(self).stats_view() == (CacheStats {
                    misses: if old(self).stats_view().misses == u64::MAX { 0 } else { (old(self).stats_view().misses + 1) as u64 },
                    ..old(self).stats_view()
                }),
            },
    {
        match self.find(path) {
            Some(i) => {
                self.stats.hits = self.stats.hits.wrapping_add(1);
                Some(copy_bytes(self.index[i].1.output.as_slice()))
            }
            None => {
                self.stats.misses = self.stats.misses.wrapping_add(1);
                None
            }
        }
    }

    /// Stores `output` for `path` with the given time: under `hash`, or the
    /// hash of the output when none is given.
    pub fn store_output_at(&mut self, path: &str, output: &[u8], hash: Option<String>, timestamp: u64)
        ensures
            final(self).entries() == upsert(
                old(self).entries(),
                path@,
                entry_at(
                    hash_or(opt_view(hash), output@),
                    output@,
                    timestamp as int,
                ),
            ),
            final(self).stats_view() == old(self).stats_view(),
            final(self).dir() == old(self).dir(),
    {
        let hash = match hash {
            Some(h) => h,
            None => self.calculate_hash(output),
        };
        let entry = CacheEntry { hash, output: copy_bytes(output), timestamp, size: output.len() as u64 };
        let ghost v0 = self.entries();
        let ghost ev = entry_view(entry);
        match self.find(path) {
            Some(i) => {
                self.index.set(i, (owned(path), entry));
                assert(self.entries() =~= v0.update(i as int, (path@, ev)));
            }
            None => {
                self.index.push((owned(path), entry));
                assert(self.entries() =~= v0.push((path@, ev)));
            }
        }
    }

    /// Stores `output` for `path`, stamped with the current time.
    pub fn store_output(&mut self, path: &str, output: &[u8], hash: Option<String>)
        ensures
            exists|t: int|
                final(self).entries() == upsert(
                    old(self).entries(),
                    path@,
                    #[trigger] entry_at(
                        hash_or(opt_view(hash), output@),
                        output@,
                        t,
                    ),
                ),
            final(self).stats_view() == old(self).stats_view(),
            final(self).dir() == old(self).dir(),
    {
        let timestamp = self.get_timestamp();
        self.store_output_at(path, output, hash, timestamp);
    }

    /// Drops the entries older than thirty days at `now` and refreshes the
    /// statistics; the paths of the dropped entries, whose files are to be
    /// removed.
    pub fn clean_at(&mut self, now: u64) -> (removed: Vec<String>)
        ensures
            final(self).entries() == fresh(old(self).entries(), now as int),
            views(removed@) == stale_paths(old(self).entries(), now as int),
            final(self).stats_view().size_bytes == size_sum(final(self).entries()),
            final(self).stats_view().file_count == final(self).entries().len(),
            final(self).stats_view().hits == old(self).stats_view().hits,
            final(self).stats_view().misses == old(self).stats_view().misses,
            final(self).dir() == old(self).dir(),
    {
        let mut kept: Vec<(String, CacheEntry)> = Vec::new();
        let mut removed: Vec<String> = Vec::new();
        let mut i: usize = 0;
        while i < self.index.len()
            invariant
                i <= self.index.len(),
                self.entries() == old(self).entries(),
                index_view(kept@) == fresh(self.entries().take(i as int), now as int),
                views(removed@) == stale_paths(self.entries().take(i as int), now as int),
                self.stats == old(self).stats,
                self.cache_dir == old(self).cache_dir,
            decreases self.index.len() - i,
        {
            let ghost t = self.entries().take(i + 1);
            assert(t.drop_last() =~= self.entries().take(i as int));
            assert(t.last() == self.entries()[i as int]);
            let ts = self.index[i].1.timestamp;
            assert(self.entries()[i as int] == (self.index@[i as int].0@, entry_view(self.index@[i as int].1)));
            assert(self.entries()[i as int].1.2 == ts as int);
            let a = now.wrapping_sub(ts);
            assert(a as int == age(now as int, ts as int));
            let limit: u64 = 2592000;
            if a > limit {
                let ghost r0 = removed@;
                removed.push(self.index[i].0.clone());
                assert(views(removed@) =~= views(r0).push(self.index@[i as int].0@));
            } else {
                let ghost k0 = kept@;
                let p = (self.index[i].0.clone(), copy_entry(&self.index[i].1));
                kept.push(p);
                assert(index_view(kept@) =~= index_view(k0).push(self.entries()[i as int]));
            }
            i += 1;
        }
        assert(self.entries().take(self.index.len() as int) =~= self.entries());
        self.index = kept;
        self.update_stats();
        removed
    }

    /// `clean_at` with the current time.
    pub fn clean(&mut self) -> (removed: Vec<String>)
        ensures
            exists|now: int|
                final(self).entries() == #[trigger] fresh(old(self).entries(), now) && views(removed@) == stale_paths(
                    old(self).entries(),
                    now,
                ),
            final(self).stats_view().size_bytes == size_sum(final(self).entries()),
            final(self).stats_view().file_count == final(self).entries().len(),
            final(self).stats_view().hits == old(self).stats_view().hits,
            final(self).stats_view().misses == old(self).stats_view().misses,
            final(self).dir() == old(self).dir(),
    {
        let now = self.get_timestamp();
        self.clean_at(now)
    }

    fn calculate_hash(&self, data: &[u8]) -> (r: String)
        ensures
            r@ == sha256_hex(data@),
    {
        let calc = super::hash::HashCalculator::new();
        calc.hash_bytes(data)
    }

    /// The name of the cache file for `path`: the hash of the path and
    /// `.cache`.
    pub fn cache_file_name(&self, path: &str) -> (r: String)
        ensures
            r@ == sha256_hex(vstd::utf8::encode_utf8(path@)) + ".cache"@,
    {
        let mut r = self.calculate_hash(path.as_bytes());
        push_str(&mut r, ".cache");
        r
    }

    fn get_timestamp(&self) -> u64 {
        now_secs()
    }

    /// Recounts the stored size and the number of entries.
    pub fn update_stats(&mut self)
        ensures
            final(self).stats_view().size_bytes == size_sum(final(self).entries()),
            final(self).stats_view().file_count == final(self).entries().len(),
            final(self).stats_view().hits == old(self).stats_view().hits,
            final(self).stats_view().misses == old(self).stats_view().misses,
            final(self).entries() == old(self).entries(),
            final(self).dir() == old(self).dir(),
    {
        let mut total_size: u64 = 0;
        let mut file_count: u64 = 0;
        let mut i: usize = 0;
        while i < self.index.len()
            invariant
                i <= self.index.len(),
                total_size as int == size_sum(self.entries().take(i as int)),
                file_count as int == i,
            decreases self.index.len() - i,
        {
            let ghost t = self.entries().take(i + 1);
            assert(t.drop_last() =~= self.entries().take(i as int));
            assert(t.last() == self.entries()[i as int]);
            total_size = add_wrapping(total_size, self.index[i].1.size);
            file_count = file_count + 1;
            i += 1;
        }
        assert(self.entries().take(self.index.len() as int) =~= self.entries());
        self.stats.size_bytes = total_size;
        self.stats.file_count = file_count;
    }

    pub fn get_stats(&self) -> (s: CacheStats)
        ensures
            s == self.stats_view(),
    {
        self.stats
    }

    /// Drops every entry; their paths, whose files are to be removed.
    pub fn clear_all(&mut self) -> (removed: Vec<String>)
        ensures
            final(self).entries().len() == 0,
            removed@.len() == old(self).entries().len(),
            forall|i: int| 0 <= i < removed@.len() ==> #[trigger] removed@[i]@ == old(self).entries()[i].0,
            final(self).stats_view().size_bytes == 0,
            final(self).stats_view().file_count == 0,
            final(self).dir() == old(self).dir(),
    {
        let mut removed: Vec<String> = Vec::new();
        let mut i: usize = 0;
        while i < self.index.len()
            invariant
                i <= self.index.len(),
                removed@.len() == i,
                forall|k: int| 0 <= k < i ==> #[trigger] removed@[k]@ == self.entries()[k].0,
            decreases self.index.len() - i,
        {
            removed.push(self.index[i].0.clone());
            i += 1;
        }
        self.index = Vec::new();
        self.update_stats();
        assert(self.entries().len() == 0);
        removed
    }

    pub fn get_disk_usage(&self) -> (n: u64)
        ensures
            n == self.stats_view().size_bytes,
    {
        self.stats.size_bytes
    }

    /// The entry stored for `path`, if any, for writing to disk.
    pub fn entry(&self, path: &str) -> (r: Option<&CacheEntry>)
        ensures
            match lookup(self.entries(), path@) {
                Some(e) => r matches Some(x) && entry_view(*x) == e,
                None => r is None,
            },
    {
        match self.find(path) {
            Some(i) => Some(&self.index[i].1),
            None => None,
        }
    }

    /// Every entry, in order, for writing the index to disk.
    pub fn index(&self) -> (r: &Vec<(String, CacheEntry)>)
        ensures
            index_view(r@) == self.entries(),
    {
        &self.index
    }
}

} // verus!
