//! Source maps: mappings from output positions to source positions,
//! encoded as base64 VLQ in the JSON form of version 3.
use vstd::prelude::*;
use crate::text::{owned, push_str, push_string, push_char, chars_of, lines, lines_of, str_eq, views};

verus! {

/// A map as it is written out.
#[allow(non_snake_case)]
#[derive(Debug)]
pub struct SourceMap {
    pub version: u32,
    pub sources: Vec<String>,
    pub names: Vec<String>,
    pub mappings: String,
    pub sourcesContent: Option<Vec<String>>,
}

/// One output position and the source position it comes from.
#[derive(Debug, Clone, Copy)]
pub struct Mapping {
    pub generated_line: usize,
    pub generated_col: usize,
    pub source_line: usize,
    pub source_col: usize,
    pub source_idx: usize,
    pub name_idx: Option<usize>,
}

/// The largest position a mapping may hold, exclusive: the differences
/// between positions must stay encodable.
pub open spec fn bound() -> int {
    0x4000_0000
}

pub open spec fn mapping_ok(m: Mapping) -> bool {
    &&& m.generated_line < bound()
    &&& m.generated_col < bound()
    &&& m.source_line < bound()
    &&& m.source_col < bound()
    &&& m.source_idx < bound()
    &&& (m.name_idx matches Some(n) ==> n < bound())
}

// ---------------------------------------------------------------------------
// Base64 VLQ
// ---------------------------------------------------------------------------

/// The base64 digit for `d < 64`.
pub open spec fn b64(d: int) -> char {
    if d < 26 {
        (65 + d) as char
    } else if d < 52 {
        (97 + d - 26) as char
    } else if d < 62 {
        (48 + d - 52) as char
    } else if d == 62 {
        '+'
    } else {
        '/'
    }
}

/// Five bits at a time, least significant first; every digit but the last
/// has the continuation bit.
pub open spec fn vlq_digits(u: nat) -> Seq<char>
    decreases u,
{
    if u / 32 == 0 {
        seq![b64((u % 32) as int)]
    } else {
        seq![b64((u % 32) as int + 32)] + vlq_digits(u / 32)
    }
}

/// The VLQ text of a signed value: the sign in the lowest bit.
pub open spec fn vlq(v: int) -> Seq<char> {
    if v < 0 { vlq_digits((2 * (-v) + 1) as nat) } else { vlq_digits((2 * v) as nat) }
}

// ---------------------------------------------------------------------------
// Mappings
// ---------------------------------------------------------------------------

/// The mappings of output line `l`, in the order they were added.
pub open spec fn line_maps(ms: Seq<Mapping>, l: int) -> Seq<Mapping>
    decreases ms.len(),
{
    if ms.len() == 0 {
        seq![]
    } else if ms.last().generated_line == l {
        line_maps(ms.drop_last(), l).push(ms.last())
    } else {
        line_maps(ms.drop_last(), l)
    }
}

pub open spec fn max_line(ms: Seq<Mapping>) -> int
    decreases ms.len(),
{
    if ms.len() == 0 {
        -1
    } else {
        let m = max_line(ms.drop_last());
        if ms.last().generated_line > m { ms.last().generated_line as int } else { m }
    }
}

/// What the encoding carries from one mapping to the next: the source
/// index, line and column, and the name index.
pub struct Prev {
    pub si: int,
    pub sl: int,
    pub sc: int,
    pub ni: int,
}

/// One mapping's segment: the column relative to the previous one of the
/// line, and the source fields (and name) relative to the previous ones.
pub open spec fn segment(m: Mapping, gc: int, p: Prev) -> Seq<char> {
    vlq(m.generated_col - gc) + vlq(m.source_idx - p.si) + vlq(m.source_line - p.sl) + vlq(m.source_col - p.sc)
        + match m.name_idx {
        Some(n) => vlq(n - p.ni),
        None => seq![],
    }
}

pub open spec fn after(m: Mapping, p: Prev) -> Prev {
    Prev {
        si: m.source_idx as int,
        sl: m.source_line as int,
        sc: m.source_col as int,
        ni: match m.name_idx {
            Some(n) => n as int,
            None => p.ni,
        },
    }
}

/// A line's segments, comma-separated; the text, what is carried on, and
/// the last column.
pub open spec fn enc_line(s: Seq<Mapping>, p: Prev) -> (Seq<char>, Prev, int)
    decreases s.len(),
{
    if s.len() == 0 {
        (seq![], p, 0)
    } else {
        let r = enc_line(s.drop_last(), p);
        let m = s.last();
        (r.0 + (if s.len() > 1 { seq![','] } else { seq![] }) + segment(m, r.2, r.1), after(m, r.1), m.generated_col as int)
    }
}

/// The lines from `l` on, `;`-separated, up to the first line without
/// mappings.
pub open spec fn enc_lines(ms: Seq<Mapping>, l: int, p: Prev) -> Seq<char>
    decreases max_line(ms) + 1 - l,
{
    if l > max_line(ms) || line_maps(ms, l).len() == 0 || l < 0 {
        seq![]
    } else {
        let r = enc_line(line_maps(ms, l), p);
        r.0 + (if line_maps(ms, l + 1).len() > 0 { seq![';'] } else { seq![] }) + enc_lines(ms, l + 1, r.1)
    }
}

pub open spec fn start() -> Prev {
    Prev { si: 0, sl: 0, sc: 0, ni: 0 }
}

/// The mappings text.
pub open spec fn encoded(ms: Seq<Mapping>) -> Seq<char> {
    enc_lines(ms, 0, start())
}

// ---------------------------------------------------------------------------
// JSON
// ---------------------------------------------------------------------------

/// The JSON escape of one character.
pub open spec fn json_char(c: char) -> Seq<char> {
    if c == '"' {
        seq!['\\', '"']
    } else if c == '\\' {
        seq!['\\', '\\']
    } else if c == '\x08' {
        seq!['\\', 'b']
    } else if c == '\t' {
        seq!['\\', 't']
    } else if c == '\n' {
        seq!['\\', 'n']
    } else if c == '\x0c' {
        seq!['\\', 'f']
    } else if c == '\r' {
        seq!['\\', 'r']
    } else if (c as int) < 0x20 {
        seq!['\\', 'u', '0', '0', hex_digit((c as int) / 16), hex_digit((c as int) % 16)]
    } else {
        seq![c]
    }
}

pub open spec fn hex_digit(d: int) -> char {
    if d < 10 { (48 + d) as char } else { (97 + d - 10) as char }
}

pub open spec fn json_escape(s: Seq<char>) -> Seq<char>
    decreases s.len(),
{
    if s.len() == 0 { seq![] } else { json_escape(s.drop_last()) + json_char(s.last()) }
}

/// A JSON string literal.
pub open spec fn json_str(s: Seq<char>) -> Seq<char> {
    seq!['"'] + json_escape(s) + seq!['"']
}

/// Writes `s` as a JSON string. Calls `serde_json::to_string` on a `&str`,
/// which cannot fail there; the contract states its escaping: quote,
/// backslash and control characters, short forms where JSON has them.
#[verifier::external_body]
fn json_string(s: &str) -> (r: String)
    ensures
        r@ == json_str(s@),
{
    serde_json::to_string(s).unwrap_or_default()
}

pub open spec fn json_list(s: Seq<Seq<char>>) -> Seq<char>
    decreases s.len(),
{
    if s.len() == 0 {
        seq![]
    } else if s.len() == 1 {
        json_str(s[0])
    } else {
        json_list(s.drop_last()) + seq![','] + json_str(s.last())
    }
}

/// A map in JSON, fields in declaration order, no whitespace.
pub open spec fn map_json(sources: Seq<Seq<char>>, names: Seq<Seq<char>>, mappings: Seq<char>) -> Seq<char> {
    "{\"version\":3,\"sources\":["@ + json_list(sources) + "],\"names\":["@ + json_list(names)
        + "],\"mappings\":"@ + json_str(mappings) + ",\"sourcesContent\":null}"@
}

fn write_json_list(v: &Vec<String>, out: &mut String)
    ensures
        final(out)@ == old(out)@ + json_list(views(v@)),
{
    let mut i: usize = 0;
    while i < v.len()
        invariant
            i <= v.len(),
            out@ == old(out)@ + json_list(views(v@).take(i as int)),
        decreases v.len() - i,
    {
        if i > 0 {
            push_char(out, ',');
        }
        let q = json_string(v[i].as_str());
        push_string(out, &q);
        proof {
            let t = views(v@).take(i + 1);
            assert(t.drop_last() =~= views(v@).take(i as int));
            assert(t.last() == v@[i as int]@);
            assert(out@ =~= old(out)@ + json_list(t));
        }
        i += 1;
    }
    assert(views(v@).take(v.len() as int) =~= views(v@));
}

impl SourceMap {
    /// The JSON text of this map (with no source contents).
    pub fn to_json(&self) -> (r: String)
        requires
            self.version == 3,
            self.sourcesContent is None,
        ensures
            r@ == map_json(views(self.sources@), views(self.names@), self.mappings@),
    {
        let mut r = owned("{\"version\":3,\"sources\":[");
        write_json_list(&self.sources, &mut r);
        push_str(&mut r, "],\"names\":[");
        write_json_list(&self.names, &mut r);
        push_str(&mut r, "],\"mappings\":");
        let m = json_string(self.mappings.as_str());
        push_string(&mut r, &m);
        push_str(&mut r, ",\"sourcesContent\":null}");
        r
    }
}

// ---------------------------------------------------------------------------
// The generator
// ---------------------------------------------------------------------------

/// Each entry once.
pub open spec fn distinct(s: Seq<Seq<char>>) -> bool {
    forall|i: int, j: int| 0 <= i < j < s.len() ==> s[i] != s[j]
}

pub struct SourceMapGenerator {
    mappings: Vec<Mapping>,
    sources: Vec<String>,
    names: Vec<String>,
}

/// The position of `x` in `v`.
fn position(v: &Vec<String>, x: &str) -> (r: Option<usize>)
    ensures
        match r {
            Some(i) => i < v.len() && v@[i as int]@ == x@,
            None => !views(v@).contains(x@),
        },
{
    let mut i: usize = 0;
    while i < v.len()
        invariant
            i <= v.len(),
            forall|k: int| 0 <= k < i ==> v@[k]@ != x@,
        decreases v.len() - i,
    {
        if str_eq(v[i].as_str(), x) {
            return Some(i);
        }
        i += 1;
    }
    assert(!views(v@).contains(x@)) by {
        if views(v@).contains(x@) {
            let k = choose|k: int| 0 <= k < views(v@).len() && views(v@)[k] == x@;
            assert(v@[k]@ == x@);
        }
    }
    None
}

impl SourceMapGenerator {
    pub closed spec fn maps(&self) -> Seq<Mapping> {
        self.mappings@
    }

    pub closed spec fn srcs(&self) -> Seq<Seq<char>> {
        views(self.sources@)
    }

    pub closed spec fn nms(&self) -> Seq<Seq<char>> {
        views(self.names@)
    }

    /// Sources and names are each listed once, and every mapping is in
    /// bounds.
    pub open spec fn wf(&self) -> bool {
        &&& distinct(self.srcs())
        &&& distinct(self.nms())
        &&& forall|i: int| 0 <= i < self.maps().len() ==> mapping_ok(#[trigger] self.maps()[i])
    }

    pub fn new() -> (g: SourceMapGenerator)
        ensures
            g.wf(),
            g.maps().len() == 0,
            g.srcs().len() == 0,
            g.nms().len() == 0,
    {
        let g = SourceMapGenerator { mappings: Vec::new(), sources: Vec::new(), names: Vec::new() };
        assert(g.srcs() =~= seq![]);
        assert(g.nms() =~= seq![]);
        g
    }

    /// The map's JSON text: the sources, the names and the encoded mappings.
    pub fn generate(&mut self, js: &str) -> (r: String)
        requires
            old(self).wf(),
        ensures
            r@ == map_json(old(self).srcs(), old(self).nms(), encoded(old(self).maps())),
            *final(self) == *old(self),
    {
        let map = SourceMap {
            version: 3,
            sources: clone_strings(&self.sources),
            names: clone_strings(&self.names),
            mappings: self.encode_mappings(),
            sourcesContent: None,
        };
        map.to_json()
    }

    pub fn add_mapping(&mut self, mapping: Mapping)
        requires
            old(self).wf(),
            mapping_ok(mapping),
        ensures
            final(self).wf(),
            final(self).maps() == old(self).maps().push(mapping),
            final(self).srcs() == old(self).srcs(),
            final(self).nms() == old(self).nms(),
    {
        let ghost m0 = self.maps();
        self.mappings.push(mapping);
        assert(self.maps() == m0.push(mapping));
        assert forall|i: int| 0 <= i < self.maps().len() implies mapping_ok(#[trigger] self.maps()[i]) by {
            if i < m0.len() {
                assert(self.maps()[i] == m0[i]);
            }
        }
    }

    /// The index of `source`, added at the end when it is new.
    pub fn add_source(&mut self, source: String) -> (idx: usize)
        requires
            old(self).wf(),
        ensures
            final(self).wf(),
            final(self).maps() == old(self).maps(),
            final(self).nms() == old(self).nms(),
            old(self).srcs().contains(source@) ==> final(self).srcs() == old(self).srcs()
                && idx < old(self).srcs().len() && old(self).srcs()[idx as int] == source@,
            !old(self).srcs().contains(source@) ==> final(self).srcs() == old(self).srcs().push(source@)
                && idx == old(self).srcs().len(),
    {
        match position(&self.sources, source.as_str()) {
            Some(i) => {
                assert(self.srcs()[i as int] == source@);
                i
            }
            None => {
                let idx = self.sources.len();
                let ghost s0 = self.srcs();
                let ghost x = source@;
                self.sources.push(source);
                assert(self.srcs() =~= s0.push(x));
                proof {
                    lemma_distinct_push(s0, x);
                }
                assert(distinct(self.srcs()));
                assert(self.maps() == old(self).maps());
                assert(self.nms() == old(self).nms());
                idx
            }
        }
    }

    /// The index of `name`, added at the end when it is new.
    pub fn add_name(&mut self, name: String) -> (idx: usize)
        requires
            old(self).wf(),
        ensures
            final(self).wf(),
            final(self).maps() == old(self).maps(),
            final(self).srcs() == old(self).srcs(),
            old(self).nms().contains(name@) ==> final(self).nms() == old(self).nms()
                && idx < old(self).nms().len() && old(self).nms()[idx as int] == name@,
            !old(self).nms().contains(name@) ==> final(self).nms() == old(self).nms().push(name@)
                && idx == old(self).nms().len(),
    {
        match position(&self.names, name.as_str()) {
            Some(i) => {
                assert(self.nms()[i as int] == name@);
                assert(self.nms().contains(name@));
                i
            }
            None => {
                let idx = self.names.len();
                let ghost s0 = self.nms();
                let ghost x = name@;
                self.names.push(name);
                assert(self.nms() =~= s0.push(x));
                proof {
                    lemma_distinct_push(s0, x);
                }
                assert(self.maps() == old(self).maps());
                assert(self.srcs() == old(self).srcs());
                idx
            }
        }
    }
}

fn clone_strings(v: &Vec<String>) -> (r: Vec<String>)
    ensures
        views(r@) == views(v@),
{
    let r = v.clone();
    assert(views(r@) =~= views(v@));
    r
}


/// The mapping of output line `i` to source line `i`, both at column 0.
pub open spec fn line_mapping(i: int) -> Mapping {
    Mapping {
        generated_line: i as usize,
        generated_col: 0,
        source_line: i as usize,
        source_col: 0,
        source_idx: 0,
        name_idx: None,
    }
}

pub open spec fn line_mappings(n: nat) -> Seq<Mapping> {
    Seq::new(n, |i: int| line_mapping(i))
}

pub open spec fn min(a: int, b: int) -> int {
    if a < b { a } else { b }
}

/// Lines that have mappings come before the largest mapped line.
proof fn lemma_line_maps_max(ms: Seq<Mapping>, l: int)
    ensures
        line_maps(ms, l).len() > 0 ==> l <= max_line(ms),
    decreases ms.len(),
{
    if ms.len() > 0 {
        lemma_line_maps_max(ms.drop_last(), l);
    }
}

proof fn lemma_line_maps_ok(ms: Seq<Mapping>, l: int)
    requires
        forall|i: int| 0 <= i < ms.len() ==> mapping_ok(#[trigger] ms[i]),
    ensures
        forall|i: int| 0 <= i < line_maps(ms, l).len() ==> mapping_ok(#[trigger] line_maps(ms, l)[i]),
    decreases ms.len(),
{
    if ms.len() > 0 {
        assert forall|i: int| 0 <= i < ms.drop_last().len() implies mapping_ok(#[trigger] ms.drop_last()[i]) by {
            assert(ms.drop_last()[i] == ms[i]);
        }
        lemma_line_maps_ok(ms.drop_last(), l);
        assert(mapping_ok(ms[ms.len() - 1]));
        let prev = line_maps(ms.drop_last(), l);
        assert forall|i: int| 0 <= i < line_maps(ms, l).len() implies mapping_ok(#[trigger] line_maps(ms, l)[i]) by {
            if i < prev.len() {
                assert(line_maps(ms, l)[i] == prev[i]);
            } else {
                assert(line_maps(ms, l)[i] == ms.last());
            }
        }
    }
}

proof fn lemma_max_line_bound(ms: Seq<Mapping>)
    requires
        forall|i: int| 0 <= i < ms.len() ==> mapping_ok(#[trigger] ms[i]),
    ensures
        max_line(ms) < bound(),
    decreases ms.len(),
{
    if ms.len() > 0 {
        assert forall|i: int| 0 <= i < ms.drop_last().len() implies mapping_ok(#[trigger] ms.drop_last()[i]) by {
            assert(ms.drop_last()[i] == ms[i]);
        }
        lemma_max_line_bound(ms.drop_last());
        assert(mapping_ok(ms[ms.len() - 1]));
    }
}

proof fn lemma_distinct_push(s: Seq<Seq<char>>, x: Seq<char>)
    requires
        distinct(s),
        !s.contains(x),
    ensures
        distinct(s.push(x)),
{
    assert forall|i: int, j: int| 0 <= i < j < s.push(x).len() implies s.push(x)[i] != s.push(x)[j] by {
        if j == s.len() {
            assert(s.push(x)[i] == s[i]);
            assert(s.contains(s[i]));
        }
    }
}

impl SourceMapGenerator {
    /// The mappings of output line `l`, in order.
    fn filter_line(&self, l: usize) -> (r: Vec<Mapping>)
        ensures
            r@ == line_maps(self.maps(), l as int),
    {
        let mut r: Vec<Mapping> = Vec::new();
        let mut i: usize = 0;
        while i < self.mappings.len()
            invariant
                i <= self.mappings.len(),
                r@ == line_maps(self.maps().take(i as int), l as int),
            decreases self.mappings.len() - i,
        {
            let m = self.mappings[i];
            assert(self.maps().take(i + 1).drop_last() =~= self.maps().take(i as int));
            assert(self.maps().take(i + 1).last() == m);
            if m.generated_line == l {
                r.push(m);
            }
            i += 1;
        }
        assert(self.maps().take(self.mappings.len() as int) =~= self.maps());
        r
    }

    /// The mappings text: per output line from line 0, the line's segments,
    /// up to the first line without mappings.
    fn encode_mappings(&self) -> (r: String)
        requires
            self.wf(),
        ensures
            r@ == encoded(self.maps()),
    {
        let ghost ms = self.maps();
        let mut mappings = String::new();
        let mut prev_gen_col: usize = 0;
        let mut prev_source_idx: usize = 0;
        let mut prev_source_line: usize = 0;
        let mut prev_source_col: usize = 0;
        let mut prev_name_idx: usize = 0;
        let mut current_line: usize = 0;
        let mut line_mappings = self.filter_line(0);
        proof {
            lemma_line_maps_ok(ms, 0);
            lemma_max_line_bound(ms);
        }
        while line_mappings.len() > 0
            invariant
                self.wf(),
                ms == self.maps(),
                current_line <= bound(),
                line_mappings@ == line_maps(ms, current_line as int),
                forall|i: int| 0 <= i < line_mappings@.len() ==> mapping_ok(#[trigger] line_mappings@[i]),
                prev_source_idx < bound(),
                prev_source_line < bound(),
                prev_source_col < bound(),
                prev_name_idx < bound(),
                encoded(ms) == mappings@ + enc_lines(
                    ms,
                    current_line as int,
                    Prev {
                        si: prev_source_idx as int,
                        sl: prev_source_line as int,
                        sc: prev_source_col as int,
                        ni: prev_name_idx as int,
                    },
                ),
            decreases max_line(ms) + 1 - current_line,
        {
            proof {
                lemma_line_maps_max(ms, current_line as int);
                lemma_max_line_bound(ms);
            }
            let ghost p0 = Prev {
                si: prev_source_idx as int,
                sl: prev_source_line as int,
                sc: prev_source_col as int,
                ni: prev_name_idx as int,
            };
            let ghost m0 = mappings@;
            prev_gen_col = 0;
            let mut i: usize = 0;
            while i < line_mappings.len()
                invariant
                    i <= line_mappings.len(),
                    forall|k: int| 0 <= k < line_mappings@.len() ==> mapping_ok(#[trigger] line_mappings@[k]),
                    prev_gen_col < bound(),
                    prev_source_idx < bound(),
                    prev_source_line < bound(),
                    prev_source_col < bound(),
                    prev_name_idx < bound(),
                    ({
                        let e = enc_line(line_mappings@.take(i as int), p0);
                        &&& mappings@ == m0 + e.0
                        &&& e.1 == Prev {
                            si: prev_source_idx as int,
                            sl: prev_source_line as int,
                            sc: prev_source_col as int,
                            ni: prev_name_idx as int,
                        }
                        &&& e.2 == prev_gen_col as int
                    }),
                decreases line_mappings.len() - i,
            {
                let mapping = line_mappings[i];
                assert(mapping_ok(line_mappings@[i as int]));
                let ghost before = mappings@;
                if i > 0 {
                    push_char(&mut mappings, ',');
                }
                let gen_col: i32 = mapping.generated_col as i32 - prev_gen_col as i32;
                let a = self.encode_vlq(gen_col);
                push_string(&mut mappings, &a);
                let source_idx: i32 = mapping.source_idx as i32 - prev_source_idx as i32;
                let b = self.encode_vlq(source_idx);
                push_string(&mut mappings, &b);
                let source_line: i32 = mapping.source_line as i32 - prev_source_line as i32;
                let c = self.encode_vlq(source_line);
                push_string(&mut mappings, &c);
                let source_col: i32 = mapping.source_col as i32 - prev_source_col as i32;
                let d = self.encode_vlq(source_col);
                push_string(&mut mappings, &d);
                match mapping.name_idx {
                    Some(name_idx) => {
                        let name: i32 = name_idx as i32 - prev_name_idx as i32;
                        let e = self.encode_vlq(name);
                        push_string(&mut mappings, &e);
                        prev_name_idx = name_idx;
                    }
                    None => {}
                }
                prev_gen_col = mapping.generated_col;
                prev_source_idx = mapping.source_idx;
                prev_source_line = mapping.source_line;
                prev_source_col = mapping.source_col;
                proof {
                    let t = line_mappings@.take(i + 1);
                    assert(t.drop_last() =~= line_mappings@.take(i as int));
                    assert(t.last() == mapping);
                    assert(mappings@ =~= m0 + enc_line(t, p0).0);
                }
                i += 1;
            }
            assert(line_mappings@.take(line_mappings.len() as int) =~= line_mappings@);
            let ghost p1 = Prev {
                si: prev_source_idx as int,
                sl: prev_source_line as int,
                sc: prev_source_col as int,
                ni: prev_name_idx as int,
            };
            current_line += 1;
            prev_gen_col = 0;
            line_mappings = self.filter_line(current_line);
            proof {
                lemma_line_maps_ok(ms, current_line as int);
                lemma_line_maps_max(ms, current_line as int);
            }
            if line_mappings.len() > 0 {
                push_char(&mut mappings, ';');
            }
            assert(mappings@ + enc_lines(ms, current_line as int, p1) =~= m0 + enc_lines(
                ms,
                current_line - 1,
                p0,
            ));
        }
        assert(enc_lines(ms, current_line as int, Prev {
            si: prev_source_idx as int,
            sl: prev_source_line as int,
            sc: prev_source_col as int,
            ni: prev_name_idx as int,
        }) == Seq::<char>::empty());
        assert(mappings@ + Seq::<char>::empty() =~= mappings@);
        mappings
    }

    /// The VLQ text of `value`.
    fn encode_vlq(&self, value: i32) -> (r: String)
        requires
            -bound() < value < bound(),
        ensures
            r@ == vlq(value as int),
    {
        let mut val: i32 = if value < 0 {
            let neg: i32 = -value;
            assert((neg << 1) | 1 == 2 * neg + 1) by (bit_vector)
                requires
                    0i32 < neg < 0x4000_0000i32,
            ;
            (neg << 1) | 1
        } else {
            assert(value << 1 == 2 * value) by (bit_vector)
                requires
                    0i32 <= value < 0x4000_0000i32,
            ;
            value << 1
        };
        let ghost u0: nat = val as nat;
        assert(vlq(value as int) == vlq_digits(u0));
        let mut result = String::new();
        loop
            invariant
                0 <= val,
                vlq(value as int) == vlq_digits(u0),
                vlq_digits(u0) == result@ + vlq_digits(val as nat),
            decreases val,
        {
            let v0 = val;
            assert(v0 & 31 == v0 % 32) by (bit_vector)
                requires
                    0i32 <= v0,
            ;
            assert(v0 >> 5 == v0 / 32) by (bit_vector)
                requires
                    0i32 <= v0,
            ;
            let mut digit = (val & 31) as u8;
            val >>= 5;
            if val != 0 {
                let d0 = digit;
                assert(d0 | 32 == d0 + 32) by (bit_vector)
                    requires
                        d0 < 32u8,
                ;
                digit |= 32;
            }
            let ch = self.to_base64(digit);
            let ghost r0 = result@;
            push_char(&mut result, ch);
            if val == 0 {
                assert(vlq_digits(v0 as nat) == seq![ch]);
                assert(result@ =~= r0 + vlq_digits(v0 as nat));
                assert(vlq_digits(u0) =~= result@);
                return result;
            }
            assert(vlq_digits(v0 as nat) =~= seq![ch] + vlq_digits(val as nat));
            assert(r0 + vlq_digits(v0 as nat) =~= result@ + vlq_digits(val as nat));
        }
    }

    /// The base64 digit for `value`.
    fn to_base64(&self, value: u8) -> (c: char)
        requires
            value < 64,
        ensures
            c == b64(value as int),
    {
        if value < 26 {
            (65u8 + value) as char
        } else if value < 52 {
            (97u8 + value - 26) as char
        } else if value < 62 {
            (48u8 + value - 52) as char
        } else if value == 62 {
            '+'
        } else {
            '/'
        }
    }

    /// A map from `output` back to `source` line by line: output line `i`
    /// maps to source line `i` while the source has one.
    pub fn generate_from_strings(source: &str, output: &str) -> (r: String)
        requires
            lines(output@).len() <= bound(),
        ensures
            r@ == map_json(
                seq!["input.pys"@],
                seq![],
                encoded(line_mappings(min(lines(output@).len() as int, lines(source@).len() as int) as nat)),
            ),
    {
        let mut generator = Self::new();
        let source_idx = generator.add_source(owned("input.pys"));
        let source_lines = lines_of(chars_of(source).as_slice());
        let output_lines = lines_of(chars_of(output).as_slice());
        let ghost n = min(lines(output@).len() as int, lines(source@).len() as int);
        let mut line_idx: usize = 0;
        while line_idx < output_lines.len()
            invariant
                line_idx <= output_lines.len(),
                output_lines@.len() == lines(output@).len(),
                source_lines@.len() == lines(source@).len(),
                output_lines@.len() <= bound(),
                source_idx == 0,
                generator.wf(),
                generator.srcs() == seq!["input.pys"@],
                generator.nms().len() == 0,
                generator.maps() =~= line_mappings(min(line_idx as int, n) as nat),
                n == min(lines(output@).len() as int, lines(source@).len() as int),
            decreases output_lines.len() - line_idx,
        {
            if line_idx < source_lines.len() {
                let mapping = Mapping {
                    generated_line: line_idx,
                    generated_col: 0,
                    source_line: line_idx,
                    source_col: 0,
                    source_idx,
                    name_idx: None,
                };
                let ghost m0 = generator.maps();
                generator.add_mapping(mapping);
                assert(mapping == line_mapping(line_idx as int));
                assert(line_mappings((line_idx + 1) as nat) =~= line_mappings(line_idx as nat).push(
                    line_mapping(line_idx as int),
                ));
                assert(min(line_idx as int, n) == line_idx);
                assert(min(line_idx + 1, n) == line_idx + 1);
                assert(generator.maps() =~= line_mappings((line_idx + 1) as nat));
            } else {
                assert(min(line_idx as int, n) == min(line_idx + 1, n));
            }
            line_idx += 1;
        }
        generator.generate(output)
    }
}

} // verus!
