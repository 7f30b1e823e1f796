//! Content hashes: SHA-256 in lowercase hex, a hash per file path kept
//! once computed, and a tracker of whether an input changed.
use vstd::prelude::*;
use vstd::utf8::encode_utf8;
use sha2::{Sha256, Digest};
use std::hash::{Hasher, BuildHasher};
use crate::text::{owned, str_eq, views};

verus! {

/// The SHA-256 digest of `b` in lowercase hex. Named, not stated.
pub uninterp spec fn sha256_hex(b: Seq<u8>) -> Seq<char>;

/// Lowercase hexadecimal digits.
pub open spec fn lower_hex(s: Seq<char>) -> bool {
    forall|i: int| 0 <= i < s.len() ==> ('0' <= #[trigger] s[i] <= '9' || 'a' <= s[i] <= 'f')
}

/// Hashes `data` with `sha2::Sha256` and writes the digest with `{:x}`.
/// The contract claims the text is a function of the bytes alone, two
/// lowercase hex digits per digest byte.
#[verifier::external_body]
fn sha256_of(data: &[u8]) -> (r: String)
    ensures
        r@ == sha256_hex(data@),
        r@.len() == 64,
        lower_hex(r@),
{
    let mut hasher = Sha256::new();
    hasher.update(data);
    format!("{:x}", hasher.finalize())
}

/// A hash of `data` with a `RandomState` hasher: it differs from process
/// to process, so nothing is claimed of it.
#[verifier::external_body]
fn random_state_hash(data: &[u8]) -> (r: u64) {
    let mut hasher = std::collections::hash_map::RandomState::new().build_hasher();
    hasher.write(data);
    hasher.finish()
}

#[verifier::external_type_specification]
#[verifier::external_body]
pub struct ExJsonValue(serde_json::Value);

/// A JSON value as plain values. A number is held by its JSON text.
pub enum JsonValue {
    Null,
    Bool(bool),
    Number(String),
    Str(String),
    Array(Vec<JsonValue>),
    Object(Vec<(String, JsonValue)>),
}

/// A JSON value as the contracts see it.
pub enum JsonTree {
    Null,
    Bool(bool),
    Number(Seq<char>),
    Str(Seq<char>),
    Array(Seq<JsonTree>),
    Object(Seq<(Seq<char>, JsonTree)>),
}

pub open spec fn json_view(v: JsonValue) -> JsonTree
    decreases v,
{
    match v {
        JsonValue::Null => JsonTree::Null,
        JsonValue::Bool(b) => JsonTree::Bool(b),
        JsonValue::Number(n) => JsonTree::Number(n@),
        JsonValue::Str(s) => JsonTree::Str(s@),
        JsonValue::Array(a) => JsonTree::Array(json_views(a@)),
        JsonValue::Object(o) => JsonTree::Object(json_entries(o@)),
    }
}

pub open spec fn json_views(s: Seq<JsonValue>) -> Seq<JsonTree>
    decreases s,
{
    if s.len() == 0 {
        seq![]
    } else {
        json_views(s.drop_last()).push(json_view(s.last()))
    }
}

pub open spec fn json_entries(s: Seq<(String, JsonValue)>) -> Seq<(Seq<char>, JsonTree)>
    decreases s,
{
    if s.len() == 0 {
        seq![]
    } else {
        json_entries(s.drop_last()).push((s.last().0@, json_view(s.last().1)))
    }
}

/// The text that `serde_json::to_string` writes for the value. Named, not
/// stated: it follows serde_json's writer (keys of an object sorted, a
/// repeated key kept once, strings escaped, numbers as their text).
pub uninterp spec fn json_of(v: JsonTree) -> Seq<char>;

/// The `serde_json::Value` that `v` describes: each variant to the variant
/// of that name; a number's text read as a `serde_json::Number`, or `null`
/// where the text is not a JSON number. Used by `json_text` alone.
#[verifier::external_body]
fn serde_value(v: &JsonValue) -> serde_json::Value {
    match v {
        JsonValue::Null => serde_json::Value::Null,
        JsonValue::Bool(b) => serde_json::Value::Bool(*b),
        JsonValue::Number(n) => n.parse::<serde_json::Number>().map(serde_json::Value::Number).unwrap_or(serde_json::Value::Null),
        JsonValue::Str(s) => serde_json::Value::String(s.clone()),
        JsonValue::Array(a) => serde_json::Value::Array(a.iter().map(serde_value).collect()),
        JsonValue::Object(o) => serde_json::Value::Object(o.iter().map(|(k, x)| (k.clone(), serde_value(x))).collect()),
    }
}

/// The JSON text of a value, by `serde_json::to_string` on the
/// `serde_json::Value` it describes (which cannot fail for a `Value`: its
/// object keys are strings). The contract claims the text is a function
/// of the value alone.
#[verifier::external_body]
fn json_text(v: &JsonValue) -> (r: String)
    ensures
        r@ == json_of(json_view(*v)),
{
    serde_json::to_string(&serde_value(v)).unwrap_or_default()
}

/// The bytes of the strings, one after another.
pub open spec fn concat_bytes(s: Seq<Seq<char>>) -> Seq<u8>
    decreases s.len(),
{
    if s.len() == 0 { seq![] } else { concat_bytes(s.drop_last()) + encode_utf8(s.last()) }
}

/// The position of `k` among the keys of `v`.
pub fn key_index(v: &Vec<(String, String)>, k: &str) -> (r: Option<usize>)
    ensures
        match r {
            Some(i) => i < v.len() && v@[i as int].0@ == k@ && forall|j: int| 0 <= j < i ==> v@[j].0@ != k@,
            None => forall|i: int| 0 <= i < v.len() ==> v@[i].0@ != k@,
        },
{
    let mut i: usize = 0;
    while i < v.len()
        invariant
            i <= v.len(),
            forall|j: int| 0 <= j < i ==> v@[j].0@ != k@,
        decreases v.len() - i,
    {
        if str_eq(v[i].0.as_str(), k) {
            return Some(i);
        }
        i += 1;
    }
    None
}

/// The pairs as a map from the first to the second, with the first pair
/// for a repeated key.
pub open spec fn pairs_map(s: Seq<(String, String)>) -> Map<Seq<char>, Seq<char>>
    decreases s.len(),
{
    if s.len() == 0 {
        Map::empty()
    } else {
        let m = pairs_map(s.drop_last());
        if m.contains_key(s.last().0@) { m } else { m.insert(s.last().0@, s.last().1@) }
    }
}

pub proof fn lemma_pairs_map(s: Seq<(String, String)>, k: Seq<char>)
    ensures
        (forall|i: int| 0 <= i < s.len() ==> s[i].0@ != k) ==> !pairs_map(s).contains_key(k),
        forall|i: int|
            0 <= i < s.len() && s[i].0@ == k && (forall|j: int| 0 <= j < i ==> s[j].0@ != k) ==> pairs_map(
                s,
            ).contains_key(k) && pairs_map(s)[k] == s[i].1@,
    decreases s.len(),
{
    if s.len() > 0 {
        lemma_pairs_map(s.drop_last(), k);
        assert forall|i: int|
            0 <= i < s.len() && s[i].0@ == k && (forall|j: int| 0 <= j < i ==> s[j].0@ != k) implies pairs_map(
                s,
            ).contains_key(k) && pairs_map(s)[k] == s[i].1@ by {
            if i < s.len() - 1 {
                assert(s.drop_last()[i] == s[i]);
                assert forall|j: int| 0 <= j < i implies s.drop_last()[j].0@ != k by {
                    assert(s.drop_last()[j] == s[j]);
                }
            } else {
                assert forall|j: int| 0 <= j < s.drop_last().len() implies s.drop_last()[j].0@ != k by {
                    assert(s.drop_last()[j] == s[j]);
                }
            }
        }
        if forall|i: int| 0 <= i < s.len() ==> s[i].0@ != k {
            assert forall|j: int| 0 <= j < s.drop_last().len() implies s.drop_last()[j].0@ != k by {
                assert(s.drop_last()[j] == s[j]);
            }
        }
    }
}

/// Computes SHA-256 hashes and keeps one per file path.
pub struct HashCalculator {
    file_hashes: Vec<(String, String)>,
}

impl HashCalculator {
    /// The hash kept for each path.
    pub closed spec fn known(&self) -> Map<Seq<char>, Seq<char>> {
        pairs_map(self.file_hashes@)
    }

    pub fn new() -> (h: HashCalculator)
        ensures
            h.known() == Map::<Seq<char>, Seq<char>>::empty(),
    {
        HashCalculator { file_hashes: Vec::new() }
    }

    /// The hash kept for `path`, if one is.
    pub fn cached_hash(&self, path: &str) -> (r: Option<String>)
        ensures
            match r {
                Some(h) => self.known().contains_key(path@) && self.known()[path@] == h@,
                None => !self.known().contains_key(path@),
            },
    {
        proof {
            lemma_pairs_map(self.file_hashes@, path@);
        }
        match key_index(&self.file_hashes, path) {
            Some(i) => Some(self.file_hashes[i].1.clone()),
            None => None,
        }
    }

    /// The hash of a file with these contents: the one kept for `path`
    /// when there is one, else the hash of `content`, which is then kept.
    pub fn hash_file_content(&mut self, path: &str, content: &[u8]) -> (r: String)
        ensures
            old(self).known().contains_key(path@) ==> r@ == old(self).known()[path@] && final(self).known()
                == old(self).known(),
            !old(self).known().contains_key(path@) ==> r@ == sha256_hex(content@) && final(self).known()
                == old(self).known().insert(path@, r@),
    {
        match self.cached_hash(path) {
            Some(h) => h,
            None => {
                let hash = self.hash_bytes(content);
                let ghost v0 = self.file_hashes@;
                self.file_hashes.push((owned(path), hash.clone()));
                assert(self.file_hashes@.drop_last() =~= v0);
                hash
            }
        }
    }

    /// The SHA-256 of `data`, in lowercase hex.
    pub fn hash_bytes(&self, data: &[u8]) -> (r: String)
        ensures
            r@ == sha256_hex(data@),
            r@.len() == 64,
            lower_hex(r@),
    {
        sha256_of(data)
    }

    /// The hash of the UTF-8 bytes of `text`.
    pub fn hash_string(&self, text: &str) -> (r: String)
        ensures
            r@ == sha256_hex(encode_utf8(text@)),
            r@.len() == 64,
    {
        self.hash_bytes(text.as_bytes())
    }

    pub fn hash_ast(&self, ast: &str) -> (r: String)
        ensures
            r@ == sha256_hex(encode_utf8(ast@)),
            r@.len() == 64,
    {
        self.hash_string(ast)
    }

    /// The hash of the hashes' bytes, one after another.
    pub fn combine_hashes(&self, hashes: &[String]) -> (r: String)
        ensures
            r@ == sha256_hex(concat_bytes(views(hashes@))),
    {
        let mut bytes: Vec<u8> = Vec::new();
        let mut i: usize = 0;
        while i < hashes.len()
            invariant
                i <= hashes.len(),
                bytes@ == concat_bytes(views(hashes@).take(i as int)),
            decreases hashes.len() - i,
        {
            let b = hashes[i].as_str().as_bytes();
            let mut k: usize = 0;
            let ghost b0 = bytes@;
            while k < b.len()
                invariant
                    k <= b.len(),
                    bytes@ == b0 + b@.take(k as int),
                decreases b.len() - k,
            {
                bytes.push(b[k]);
                assert(b@.take(k + 1) =~= b@.take(k as int).push(b@[k as int]));
                k += 1;
            }
            assert(b@.take(b.len() as int) =~= b@);
            assert(views(hashes@).take(i + 1).drop_last() =~= views(hashes@).take(i as int));
            assert(views(hashes@).take(i + 1).last() == hashes@[i as int]@);
            i += 1;
        }
        assert(views(hashes@).take(hashes.len() as int) =~= views(hashes@));
        self.hash_bytes(bytes.as_slice())
    }

    /// The combined hash of the dependencies' hashes, given the contents
    /// of those that could be read, in order.
    pub fn hash_dependencies(&self, contents: &Vec<Vec<u8>>) -> (r: String)
        ensures
            r@ == sha256_hex(concat_bytes(contents@.map_values(|c: Vec<u8>| sha256_hex(c@)))),
    {
        let mut hashes: Vec<String> = Vec::new();
        let mut i: usize = 0;
        while i < contents.len()
            invariant
                i <= contents@.len(),
                hashes@.len() == i,
                forall|j: int| 0 <= j < i ==> #[trigger] hashes@[j]@ == sha256_hex(contents@[j]@),
            decreases contents.len() - i,
        {
            let h = self.hash_bytes(contents[i].as_slice());
            hashes.push(h);
            i += 1;
        }
        assert(views(hashes@) =~= contents@.map_values(|c: Vec<u8>| sha256_hex(c@)));
        self.combine_hashes(hashes.as_slice())
    }

    /// A quick hash whose value differs between processes; nothing is
    /// promised of it.
    pub fn fast_hash(&self, data: &[u8]) -> u64 {
        random_state_hash(data)
    }

    /// The hash of the JSON text of `config`.
    pub fn hash_config(&self, config: &JsonValue) -> (r: String)
        ensures
            r@ == sha256_hex(encode_utf8(json_of(json_view(*config)))),
            r@.len() == 64,
    {
        let config_str = json_text(config);
        self.hash_string(config_str.as_str())
    }

    /// Whether `data` hashes to `expected`.
    pub fn verify_hash(&self, data: &[u8], expected: &str) -> (b: bool)
        ensures
            b == (sha256_hex(data@) == expected@),
            b ==> expected@.len() == 64 && lower_hex(expected@),
    {
        let h = self.hash_bytes(data);
        str_eq(h.as_str(), expected)
    }
}

/// Tracks the hash of an input: the one last committed and the current
/// one.
pub struct IncrementalHash {
    last_hash: Option<String>,
    current_hash: Option<String>,
}

pub open spec fn opt_view(o: Option<String>) -> Option<Seq<char>> {
    match o {
        Some(s) => Some(s@),
        None => None,
    }
}

fn copy_opt(o: &Option<String>) -> (r: Option<String>)
    ensures
        opt_view(r) == opt_view(*o),
{
    match o {
        Some(s) => Some(s.clone()),
        None => None,
    }
}

fn same_opt(a: &Option<String>, b: &Option<String>) -> (r: bool)
    ensures
        r == (opt_view(*a) == opt_view(*b)),
{
    match (a, b) {
        (Some(x), Some(y)) => str_eq(x.as_str(), y.as_str()),
        (None, None) => true,
        _ => false,
    }
}

impl IncrementalHash {
    pub closed spec fn last(&self) -> Option<Seq<char>> {
        opt_view(self.last_hash)
    }

    pub closed spec fn current(&self) -> Option<Seq<char>> {
        opt_view(self.current_hash)
    }

    pub fn new() -> (h: IncrementalHash)
        ensures
            h.last() is None,
            h.current() is None,
    {
        IncrementalHash { last_hash: None, current_hash: None }
    }

    /// Takes the hash of `data` as the current one; whether it differs
    /// from the committed one.
    pub fn update(&mut self, data: &[u8], calculator: &HashCalculator) -> (changed: bool)
        ensures
            final(self).current() == Some(sha256_hex(data@)),
            final(self).last() == old(self).last(),
            changed == (old(self).last() != Some(sha256_hex(data@))),
    {
        let new_hash = calculator.hash_bytes(data);
        self.current_hash = Some(new_hash.clone());
        match &self.last_hash {
            Some(last) => !str_eq(last.as_str(), new_hash.as_str()),
            None => true,
        }
    }

    /// The current hash becomes the committed one.
    pub fn commit(&mut self)
        ensures
            final(self).last() == old(self).current(),
            final(self).current() == old(self).current(),
    {
        self.last_hash = copy_opt(&self.current_hash);
    }

    /// The committed hash becomes the current one again.
    pub fn rollback(&mut self)
        ensures
            final(self).current() == old(self).last(),
            final(self).last() == old(self).last(),
    {
        self.current_hash = copy_opt(&self.last_hash);
    }

    pub fn has_changed(&self) -> (b: bool)
        ensures
            b == (self.last() != self.current()),
    {
        !same_opt(&self.last_hash, &self.current_hash)
    }

    pub fn get_current(&self) -> (r: Option<&str>)
        ensures
            match r {
                Some(s) => self.current() == Some(s@),
                None => self.current() is None,
            },
    {
        match &self.current_hash {
            Some(s) => Some(s.as_str()),
            None => None,
        }
    }

    pub fn get_last(&self) -> (r: Option<&str>)
        ensures
            match r {
                Some(s) => self.last() == Some(s@),
                None => self.last() is None,
            },
    {
        match &self.last_hash {
            Some(s) => Some(s.as_str()),
            None => None,
        }
    }
}

impl Default for IncrementalHash {
    fn default() -> (h: IncrementalHash)
        ensures
            h.last() is None,
            h.current() is None,
    {
        IncrementalHash::new()
    }
}

/// The tracker's state after a commit: the current hash is also the
/// committed one.
pub open spec fn committed(last: Option<Seq<char>>, cur: Option<Seq<char>>) -> (Option<Seq<char>>, Option<Seq<char>>) {
    (cur, cur)
}

/// The tracker's state after an update with `data`.
pub open spec fn updated(last: Option<Seq<char>>, cur: Option<Seq<char>>, data: Seq<u8>) -> (Option<Seq<char>>, Option<Seq<char>>) {
    (last, Some(sha256_hex(data)))
}

/// After a commit, or after a rollback, nothing has changed; and once an
/// update is committed, updating again with the same bytes reports no
/// change.
pub proof fn lemma_commit_rollback(last: Option<Seq<char>>, cur: Option<Seq<char>>, data: Seq<u8>)
    ensures
        committed(last, cur).0 == committed(last, cur).1,
        (last, last).0 == (last, last).1,
        ({
            let (l1, c1) = updated(last, cur, data);
            let (l2, c2) = committed(l1, c1);
            &&& !(l2 != Some(sha256_hex(data)))
            &&& updated(l2, c2, data) == (l2, c2)
        }),
{
}

} // verus!
