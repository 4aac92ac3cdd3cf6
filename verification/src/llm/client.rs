//! Cleaning up the text a language model returns.

use vstd::prelude::*;
use vstd::string::*;

use crate::text::{
    lemma_strings_view_push, lemma_trim_idempotent, join_spec, join_strings, push_char, starts_with, str_chars, str_eq, str_starts_with, string_from_chars, strings_view,
    trim, trim_spec,
};

verus! {

broadcast use vstd::std_specs::vec::group_vec_axioms;

/// A line without the carriage return that preceded its line feed.
pub open spec fn strip_cr(l: Seq<char>) -> Seq<char> {
    if l.len() > 0 && l.last() == '\r' {
        l.drop_last()
    } else {
        l
    }
}

/// The pieces of a text between line feeds; every piece that ended at a line feed loses a
/// trailing carriage return. For a text that is not empty and does not end with a line feed
/// these are its lines.
pub open spec fn text_lines(s: Seq<char>) -> Seq<Seq<char>>
    decreases s.len(),
{
    if s.len() == 0 {
        seq![Seq::empty()]
    } else {
        let p = text_lines(s.drop_last());
        if s.last() == '\n' {
            p.update(p.len() - 1, strip_cr(p.last())).push(Seq::empty())
        } else {
            p.update(p.len() - 1, p.last().push(s.last()))
        }
    }
}

pub proof fn lemma_text_lines_len(s: Seq<char>)
    ensures
        text_lines(s).len() >= 1,
    decreases s.len(),
{
    if s.len() > 0 {
        lemma_text_lines_len(s.drop_last());
    }
}

/// The reply without surrounding markdown code fences: the trimmed text, or, when it opens
/// with a fence, the lines after the opening fence line up to a closing fence line,
/// trimmed.
pub open spec fn strip_fences_spec(raw: Seq<char>) -> Seq<char> {
    let t = trim_spec(raw);
    if !starts_with(t, "```"@) {
        t
    } else {
        let ls = text_lines(t);
        let end = if trim_spec(ls.last()) == "```"@ { ls.len() - 1 } else { ls.len() as int };
        trim_spec(join_spec(ls.subrange(1, end), "\n"@))
    }
}

fn strip_cr_text(cs: &Vec<char>) -> (r: String)
    ensures
        r@ == strip_cr(cs@),
{
    let n = cs.len();
    if n > 0 && cs[n - 1] == '\r' {
        let r = string_from_chars(cs, 0, n - 1);
        assert(r@ =~= cs@.drop_last());
        r
    } else {
        string_from_chars(cs, 0, n)
    }
}

/// The pieces of a text between line feeds, as `text_lines` describes them.
pub fn split_text_lines(text: &str) -> (r: Vec<String>)
    ensures
        strings_view(r@) == text_lines(text@),
{
    let cs = str_chars(text);
    let mut lines: Vec<String> = Vec::new();
    let mut cur: Vec<char> = Vec::new();
    let mut i: usize = 0;
    while i < cs.len()
        invariant
            i <= cs@.len(),
            strings_view(lines@).push(cur@) == text_lines(cs@.take(i as int)),
        decreases cs@.len() - i,
    {
        let ghost before = cs@.take(i as int);
        proof {
            assert(cs@.take(i + 1).drop_last() =~= before);
            lemma_text_lines_len(before);
        }
        let c = cs[i];
        if c == '\n' {
            let line = strip_cr_text(&cur);
            let ghost before_lines = lines@;
            lines.push(line);
            proof {
                lemma_strings_view_push(before_lines, line);
            }
            cur = Vec::new();
        } else {
            cur.push(c);
        }
        i += 1;
        proof {
            assert(strings_view(lines@).push(cur@) =~= text_lines(cs@.take(i as int)));
        }
    }
    let last = string_from_chars(&cur, 0, cur.len());
    assert(last@ =~= cur@);
    let ghost before_lines = lines@;
    lines.push(last);
    proof {
        lemma_strings_view_push(before_lines, last);
    }
    assert(cs@.take(i as int) =~= text@);
    lines
}

/// Strips surrounding markdown code fences such as ```` ```python ```` and ```` ``` ```` from a
/// model reply. A reply that is only an opening fence is not accepted.
pub fn strip_markdown_fences(raw: &str) -> (r: String)
    requires
        trim_spec(raw@) != "```"@,
    ensures
        r@ == strip_fences_spec(raw@),
{
    let stripped = trim(raw);
    if !str_starts_with(stripped.as_str(), "```") {
        return stripped;
    }
    let lines = split_text_lines(stripped.as_str());
    proof {
        lemma_text_lines_len(stripped@);
    }
    let n = lines.len();
    let last_trimmed = trim(lines[n - 1].as_str());
    let end = if str_eq(last_trimmed.as_str(), "```") { n - 1 } else { n };
    proof {
        lemma_trim_idempotent(raw@);
        if n == 1 {
            assert(text_lines(stripped@)[0] == stripped@) by {
                lemma_single_line(stripped@);
            }
        }
    }
    let mut body: Vec<String> = Vec::new();
    let mut k: usize = 1;
    while k < end
        invariant
            1 <= k <= end <= n,
            n == lines@.len(),
            body@.len() == k - 1,
            forall|j: int| 0 <= j < k - 1 ==> (#[trigger] body@[j])@ == lines@[j + 1]@,
        decreases end - k,
    {
        body.push(crate::text::string_of(lines[k].as_str()));
        k += 1;
    }
    assert(strings_view(body@) =~= strings_view(lines@).subrange(1, end as int));
    let joined = join_strings(&body, "\n");
    trim(joined.as_str())
}

/// A text without line feeds is its only line.
proof fn lemma_single_line(s: Seq<char>)
    requires
        text_lines(s).len() == 1,
    ensures
        text_lines(s)[0] == s,
    decreases s.len(),
{
    if s.len() > 0 {
        lemma_text_lines_len(s.drop_last());
        if s.last() == '\n' {
            assert(false);
        } else {
            lemma_single_line(s.drop_last());
            assert(s =~= s.drop_last().push(s.last()));
        }
    }
}

} // verus!
