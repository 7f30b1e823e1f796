//! Formatting: each line trimmed and indented by four spaces per open
//! block.
use vstd::prelude::*;
use crate::text::{chars_of, lines, lines_of, trim, trim_chars, starts_with, ends_with, string_from, push_str,
    push_chars, push_char, owned, whitespace, lead_ws, lemma_trim, lemma_trim_indented, lemma_lines_no_newline,
    lemma_lines_append_line};
pub use super::{Position, Range, TextEdit, span, line_span, edit_view};

verus! {

/// `n` levels of indentation: four spaces each.
pub open spec fn indentation(n: nat) -> Seq<char> {
    Seq::new(4 * n, |i: int| ' ')
}

/// The formatted text of the lines and the indentation after them: a line
/// ending with `:` opens a level after it, a line starting with `}` or `)`
/// closes one before it (never below zero).
pub open spec fn format_lines(ls: Seq<Seq<char>>) -> (Seq<char>, nat)
    decreases ls.len(),
{
    if ls.len() == 0 {
        (seq![], 0)
    } else {
        let (text, level) = format_lines(ls.drop_last());
        let t = trim(ls.last());
        if ends_with(t, ":"@) {
            (text + indentation(level) + t + "\n"@, level + 1)
        } else if starts_with(t, "}"@) || starts_with(t, ")"@) {
            let lv: nat = if level > 0 { (level - 1) as nat } else { 0 };
            (text + indentation(lv) + t + "\n"@, lv)
        } else {
            (text + indentation(level) + t + "\n"@, level)
        }
    }
}

/// The formatted text of `content`.
pub open spec fn formatted(content: Seq<char>) -> Seq<char> {
    format_lines(lines(content)).0
}

/// The indentation level a line with trimmed text `t` is written at, after
/// lines that left the level at `level`.
pub open spec fn line_level(t: Seq<char>, level: nat) -> nat {
    if ends_with(t, ":"@) {
        level
    } else if starts_with(t, "}"@) || starts_with(t, ")"@) {
        if level > 0 { (level - 1) as nat } else { 0 }
    } else {
        level
    }
}

/// The lines that formatting `ls` writes.
pub open spec fn out_lines(ls: Seq<Seq<char>>) -> Seq<Seq<char>>
    decreases ls.len(),
{
    if ls.len() == 0 {
        seq![]
    } else {
        let t = trim(ls.last());
        out_lines(ls.drop_last()).push(indentation(line_level(t, format_lines(ls.drop_last()).1)) + t)
    }
}

proof fn lemma_format_step(ls: Seq<Seq<char>>)
    requires
        ls.len() > 0,
    ensures
        format_lines(ls).0 == format_lines(ls.drop_last()).0 + out_lines(ls).last() + "\n"@,
        format_lines(out_lines(ls).drop_last()) == format_lines(out_lines(ls.drop_last())),
{
    let d = format_lines(ls.drop_last());
    let t = trim(ls.last());
    let ind = indentation(line_level(t, d.1));
    assert(d.0 + ind + t + "\n"@ =~= d.0 + (ind + t) + "\n"@);
    assert(out_lines(ls).drop_last() =~= out_lines(ls.drop_last()));
}

/// Formatting writes the lines `out_lines` gives, each ended by a newline.
proof fn lemma_format_text(ls: Seq<Seq<char>>)
    requires
        forall|i: int, j: int| 0 <= i < ls.len() && 0 <= j < ls[i].len() ==> #[trigger] ls[i][j] != '\n',
    ensures
        lines(format_lines(ls).0) == out_lines(ls),
        format_lines(ls).0.len() == 0 || format_lines(ls).0.last() == '\n',
    decreases ls.len(),
{
    reveal_strlit("\n");
    if ls.len() == 0 {
        assert(lines(Seq::<char>::empty()) =~= Seq::<Seq<char>>::empty());
    } else {
        let d = ls.drop_last();
        assert forall|i: int, j: int| 0 <= i < d.len() && 0 <= j < d[i].len() implies #[trigger] d[i][j] != '\n' by {
            assert(d[i] == ls[i]);
        }
        lemma_format_text(d);
        lemma_format_step(ls);
        let last = ls.last();
        let t = trim(last);
        lemma_trim(last);
        let l = out_lines(ls).last();
        let ind = indentation(line_level(t, format_lines(d).1));
        assert(l == ind + t);
        assert forall|j: int| 0 <= j < l.len() implies l[j] != '\n' by {
            if j < ind.len() {
                assert(l[j] == ' ');
            } else {
                assert(l[j] == t[j - ind.len()]);
                assert(t[j - ind.len()] == last[lead_ws(last) + j - ind.len()]);
            }
        }
        if l.len() > 0 {
            if t.len() > 0 {
                assert(l.last() == t.last());
                assert(!whitespace(t.last()));
            } else {
                assert(l.last() == ' ');
            }
        }
        assert("\n"@ =~= seq!['\n']);
        lemma_lines_append_line(format_lines(d).0, l);
        assert(out_lines(ls) == out_lines(d).push(l));
    }
}

/// Formatting the lines that formatting writes gives the same text and
/// level.
proof fn lemma_format_again(ls: Seq<Seq<char>>)
    ensures
        format_lines(out_lines(ls)) == format_lines(ls),
    decreases ls.len(),
{
    if ls.len() > 0 {
        let d = ls.drop_last();
        lemma_format_again(d);
        lemma_format_step(ls);
        let t = trim(ls.last());
        lemma_trim(ls.last());
        let ind = indentation(line_level(t, format_lines(d).1));
        lemma_trim_indented(ind, t);
        let o = out_lines(ls);
        assert(o.last() == ind + t);
        assert(trim(o.last()) == t);
    }
}

/// Formatting is idempotent: formatting formatted text changes nothing.
pub proof fn lemma_format_idempotent(content: Seq<char>)
    ensures
        formatted(formatted(content)) == formatted(content),
{
    lemma_lines_no_newline(content);
    lemma_format_text(lines(content));
    lemma_format_again(lines(content));
}

/// Path of a `file://` URI.
pub open spec fn file_path(uri: Seq<char>) -> Option<Seq<char>> {
    if starts_with(uri, "file://"@) { Some(uri.skip(7)) } else { None }
}

pub struct Formatter;

fn push_indent(s: &mut String, level: usize)
    ensures
        final(s)@ == old(s)@ + indentation(level as nat),
{
    let ghost s0 = s@;
    let mut i: usize = 0;
    while i < level
        invariant
            i <= level,
            s@ == s0 + indentation(i as nat),
        decreases level - i,
    {
        push_str(s, "    ");
        proof {
            reveal_strlit("    ");
        }
        assert(s@ =~= s0 + indentation((i + 1) as nat));
        i += 1;
    }
}

impl Formatter {
    pub fn new() -> (f: Formatter) {
        Formatter
    }

    /// The file path of a `file://` URI, whose text is to be formatted.
    pub fn content_path(&self, uri: &str) -> (r: Option<String>)
        ensures
            match file_path(uri@) {
                Some(p) => r matches Some(s) && s@ == p,
                None => r is None,
            },
    {
        let cs = chars_of(uri);
        let prefix = chars_of("file://");
        proof {
            reveal_strlit("file://");
        }
        if crate::text::is_prefix(cs.as_slice(), prefix.as_slice()) {
            let p = crate::text::slice_string(cs.as_slice(), 7, cs.len());
            assert(p@ =~= uri@.skip(7));
            Some(p)
        } else {
            None
        }
    }

    /// The edits for a document with text `content`: one edit replacing
    /// lines 0 to 10000 by the formatted text.
    pub fn format(&self, content: &str) -> (r: Vec<TextEdit>)
        ensures
            r@.len() == 1,
            r@[0].range == (Range { start: Position { line: 0, character: 0 }, end: Position { line: 10000, character: 0 } }),
            r@[0].new_text@ == formatted(content@),
    {
        let text = self.format_content(content);
        vec![
            TextEdit {
                range: Range { start: Position { line: 0, character: 0 }, end: Position { line: 10000, character: 0 } },
                new_text: text,
            },
        ]
    }

    /// Each line trimmed and indented, ending with a newline.
    pub fn format_content(&self, content: &str) -> (r: String)
        ensures
            r@ == formatted(content@),
    {
        let cs = chars_of(content);
        let ls = lines_of(cs.as_slice());
        let colon = chars_of(":");
        let brace = chars_of("}");
        let paren = chars_of(")");
        let mut formatted_text = String::new();
        let mut indent: usize = 0;
        let mut i: usize = 0;
        while i < ls.len()
            invariant
                cs@ == content@,
                colon@ == ":"@,
                brace@ == "}"@,
                paren@ == ")"@,
                ls@.len() == lines(content@).len(),
                forall|k: int| 0 <= k < ls@.len() ==> #[trigger] ls@[k]@ == lines(content@)[k],
                i <= ls@.len(),
                indent <= i,
                (formatted_text@, indent as nat) == format_lines(lines(content@).take(i as int)),
            decreases ls.len() - i,
        {
            let trimmed = trim_chars(ls[i].as_slice());
            proof {
                let t = lines(content@).take(i + 1);
                assert(t.drop_last() =~= lines(content@).take(i as int));
                assert(t.last() == ls@[i as int]@);
            }
            if crate::text::is_suffix(trimmed.as_slice(), colon.as_slice()) {
                push_indent(&mut formatted_text, indent);
                push_chars(&mut formatted_text, trimmed.as_slice());
                push_char(&mut formatted_text, '\n');
                indent += 1;
            } else if crate::text::is_prefix(trimmed.as_slice(), brace.as_slice()) || crate::text::is_prefix(
                trimmed.as_slice(),
                paren.as_slice(),
            ) {
                if indent > 0 {
                    indent -= 1;
                }
                push_indent(&mut formatted_text, indent);
                push_chars(&mut formatted_text, trimmed.as_slice());
                push_char(&mut formatted_text, '\n');
            } else {
                push_indent(&mut formatted_text, indent);
                push_chars(&mut formatted_text, trimmed.as_slice());
                push_char(&mut formatted_text, '\n');
            }
            proof {
                reveal_strlit("\n");
            }
            i += 1;
        }
        assert(lines(content@).take(ls@.len() as int) =~= lines(content@));
        formatted_text
    }
}

} // verus!
