//! The search request and its reply: the search term handed to the
//! search tool, the records of its output, and the window of results
//! that makes one page.
use vstd::prelude::*;

use crate::text::{chars_of, decimal, push_char, push_chars, push_decimal, trim, trim_bounds};
use crate::video::Video;

verus! {

broadcast use vstd::string::group_string_axioms;

/// The number of results on one page.
pub const RESULTS_PER_PAGE: usize = 10;

/// Whether the pages up to `page` can be asked for without the result
/// count overflowing a `usize`.
pub open spec fn page_in_range(page: int) -> bool {
    0 <= page && page * RESULTS_PER_PAGE + RESULTS_PER_PAGE <= usize::MAX
}

/// The position of the first result of `page` in the search results.
pub open spec fn page_offset(page: int) -> int {
    page * RESULTS_PER_PAGE
}

/// The term asking the search tool for every result up to the end of
/// `page`: `ytsearch<count>:<query>`.
pub open spec fn search_term_text(query: Seq<char>, page: int) -> Seq<char> {
    "ytsearch"@ + decimal((page_offset(page) + RESULTS_PER_PAGE) as nat) + seq![':'] + query
}

/// The search term for `query` that reaches the end of `page`.
pub fn search_term(query: &str, page: usize) -> (s: String)
    requires
        page_in_range(page as int),
    ensures
        s@ == search_term_text(query@, page as int),
{
    let count = page * RESULTS_PER_PAGE + RESULTS_PER_PAGE;
    let mut s = "ytsearch".to_owned();
    push_decimal(&mut s, count as u64);
    push_char(&mut s, ':');
    s.append(query);
    s
}

/// The results that make `page` out of all the results up to its end:
/// those from `page_offset(page)` on, at most `RESULTS_PER_PAGE` of them.
pub open spec fn page_window(all: Seq<Video>, page: int) -> Seq<Video> {
    let start = if page_offset(page) < all.len() {
        page_offset(page)
    } else {
        all.len() as int
    };
    let end = if start + RESULTS_PER_PAGE < all.len() {
        start + RESULTS_PER_PAGE
    } else {
        all.len() as int
    };
    all.subrange(start, end)
}

/// Keeps the results of `page` out of all the results up to its end.
pub fn take_page(all: Vec<Video>, page: usize) -> (r: Vec<Video>)
    requires
        page_in_range(page as int),
    ensures
        r@ == page_window(all@, page as int),
{
    let start = page * RESULTS_PER_PAGE;
    let mut all = all;
    if start >= all.len() {
        return Vec::new();
    }
    let mut rest = all.split_off(start);
    rest.truncate(RESULTS_PER_PAGE);
    rest
}

/// The end of the line that starts at `i`: the position of the next
/// line feed at or after `i`, or the end of `s`.
pub open spec fn line_end(s: Seq<char>, i: int) -> int
    decreases s.len() - i,
{
    if i < 0 || i >= s.len() || s[i] == '\n' {
        i
    } else {
        line_end(s, i + 1)
    }
}

/// A line that `str::lines` ended at a line feed, without the carriage
/// return before that line feed.
pub open spec fn drop_cr(line: Seq<char>) -> Seq<char> {
    if line.len() > 0 && line.last() == '\r' {
        line.drop_last()
    } else {
        line
    }
}

/// The line of `s` that starts at `i` and ends at `e`, as `str::lines`
/// yields it.
pub open spec fn line_text(s: Seq<char>, i: int, e: int) -> Seq<char> {
    if e < s.len() {
        drop_cr(s.subrange(i, e))
    } else {
        s.subrange(i, s.len() as int)
    }
}

/// The line ends at or after its start.
pub proof fn lemma_line_end_bounds(s: Seq<char>, i: int)
    requires
        0 <= i,
    ensures
        i <= line_end(s, i),
        i < s.len() ==> line_end(s, i) <= s.len(),
        line_end(s, i) < s.len() ==> s[line_end(s, i)] == '\n',
        forall|k: int| i <= k < line_end(s, i) ==> s[k] != '\n',
    decreases s.len() - i,
{
    if !(i >= s.len() || s[i] == '\n') {
        lemma_line_end_bounds(s, i + 1);
    }
}

/// The lines of `s` from position `i` on that hold more than whitespace,
/// in order: the records of the search tool's output.
pub open spec fn record_lines(s: Seq<char>, i: int) -> Seq<Seq<char>>
    decreases s.len() + 1 - i,
{
    if i < 0 || i >= s.len() {
        seq![]
    } else {
        let e = line_end(s, i);
        proof {
            lemma_line_end_bounds(s, i);
        }
        let line = line_text(s, i, e);
        let rest = record_lines(s, e + 1);
        if trim(line).len() > 0 {
            seq![line] + rest
        } else {
            rest
        }
    }
}

/// The views of a list of strings.
pub open spec fn string_views(v: Seq<String>) -> Seq<Seq<char>> {
    v.map_values(|l: String| l@)
}

/// The end of the line of `v` that starts at `i`.
fn find_line_end(v: &Vec<char>, i: usize) -> (e: usize)
    requires
        i < v@.len(),
    ensures
        e == line_end(v@, i as int),
{
    let mut e = i;
    while e < v.len() && v[e] != '\n'
        invariant
            i <= e <= v@.len(),
            line_end(v@, i as int) == line_end(v@, e as int),
        decreases v@.len() - e,
    {
        e = e + 1;
    }
    e
}

/// The lines of the search tool's output that hold a record: every line
/// (as `str::lines` splits them) that is more than whitespace.
pub fn result_lines(output: &str) -> (r: Vec<String>)
    ensures
        string_views(r@) == record_lines(output@, 0),
{
    let v = chars_of(output);
    let mut out: Vec<String> = Vec::new();
    let mut i: usize = 0;
    while i < v.len()
        invariant
            v@ == output@,
            i <= v@.len(),
            record_lines(v@, 0) == string_views(out@) + record_lines(v@, i as int),
        decreases v@.len() - i,
    {
        let e = find_line_end(&v, i);
        proof {
            lemma_line_end_bounds(v@, i as int);
        }
        let mut end = e;
        if e < v.len() && e > i && v[e - 1] == '\r' {
            end = e - 1;
        }
        assert(line_text(v@, i as int, e as int) =~= v@.subrange(i as int, end as int));
        let (a, b) = trim_bounds(&v, i, end);
        let ghost before = out@;
        let ghost old_i = i as int;
        let ghost line = v@.subrange(i as int, end as int);
        assert(record_lines(v@, old_i) == if trim(line).len() > 0 {
            seq![line] + record_lines(v@, e + 1)
        } else {
            record_lines(v@, e + 1)
        });
        if b > a {
            let mut text = String::new();
            push_chars(&mut text, &v, i, end);
            out.push(text);
            assert(string_views(out@) =~= string_views(before) + seq![line]);
        }
        if e >= v.len() {
            i = v.len();
        } else {
            i = e + 1;
        }
        assert(record_lines(v@, e + 1) == record_lines(v@, i as int));
        assert(string_views(before) + (seq![line] + record_lines(v@, i as int)) =~= (
        string_views(before) + seq![line]) + record_lines(v@, i as int));
    }
    assert(string_views(out@) + record_lines(v@, i as int) =~= string_views(out@));
    out
}

} // verus!
