//! Search input: the sort orders a user can ask for, and the parser that
//! splits a typed line into the search query and its sort flag.
use vstd::prelude::*;

use crate::text::{chars_of, find, is_ws, find_chars, find_from, matches_at, push_char, push_chars, string_of, trim, trim_bounds};

verus! {

/// How a page of results is ordered.
#[derive(Debug, Clone, Copy, PartialEq, Eq, Structural)]
pub enum SortOrder {
    Default,
    ViewsDesc,
    ViewsAsc,
    DurationDesc,
    DurationAsc,
}

/// The label shown for a sort order.
pub open spec fn order_label(o: SortOrder) -> Seq<char> {
    match o {
        SortOrder::Default => "default"@,
        SortOrder::ViewsDesc => "most views"@,
        SortOrder::ViewsAsc => "least views"@,
        SortOrder::DurationDesc => "longest"@,
        SortOrder::DurationAsc => "shortest"@,
    }
}

impl SortOrder {
    /// The label shown for this sort order.
    pub fn label(&self) -> (s: &'static str)
        ensures
            s@ == order_label(*self),
    {
        match self {
            SortOrder::Default => "default",
            SortOrder::ViewsDesc => "most views",
            SortOrder::ViewsAsc => "least views",
            SortOrder::DurationDesc => "longest",
            SortOrder::DurationAsc => "shortest",
        }
    }
}

/// The number of sort flags the parser knows.
pub open spec fn flag_count() -> int {
    10
}

/// The `k`-th sort flag and the order it selects, in the order in which
/// the parser tries them: a longer flag comes before a flag that is its
/// prefix, so that `--sort-by-views-asc` is not read as `--sort-by-views`.
pub open spec fn flag(k: int) -> (Seq<char>, SortOrder) {
    if k == 0 {
        ("--sort-by-views-desc"@, SortOrder::ViewsDesc)
    } else if k == 1 {
        ("--sort-by-views-asc"@, SortOrder::ViewsAsc)
    } else if k == 2 {
        ("--sort-by-views"@, SortOrder::ViewsDesc)
    } else if k == 3 {
        ("--sort-by-duration-desc"@, SortOrder::DurationDesc)
    } else if k == 4 {
        ("--sort-by-duration-asc"@, SortOrder::DurationAsc)
    } else if k == 5 {
        ("--sort-by-duration"@, SortOrder::DurationDesc)
    } else if k == 6 {
        ("--most-viewed"@, SortOrder::ViewsDesc)
    } else if k == 7 {
        ("--least-viewed"@, SortOrder::ViewsAsc)
    } else if k == 8 {
        ("--longest"@, SortOrder::DurationDesc)
    } else {
        ("--shortest"@, SortOrder::DurationAsc)
    }
}

/// The query left once a flag is cut out: the trimmed text before the
/// flag and the trimmed text after it, joined by one space when both are
/// non-empty.
pub open spec fn join_query(before: Seq<char>, after: Seq<char>) -> Seq<char> {
    if after.len() == 0 {
        before
    } else if before.len() == 0 {
        after
    } else {
        before + seq![' '] + after
    }
}

/// The result of trying the flags from the `k`-th on against the trimmed
/// input `t`: the first flag (in table order) that occurs in `t` is cut
/// out at its first occurrence and selects the order; with none, `t` is
/// the query and the order is `Default`.
pub open spec fn scan_flags(t: Seq<char>, k: int) -> (Seq<char>, SortOrder)
    decreases flag_count() - k,
{
    if k < 0 || k >= flag_count() {
        (t, SortOrder::Default)
    } else {
        match find(t, flag(k).0) {
            Some(pos) => (
                join_query(
                    trim(t.subrange(0, pos)),
                    trim(t.subrange(pos + flag(k).0.len(), t.len() as int)),
                ),
                flag(k).1,
            ),
            None => scan_flags(t, k + 1),
        }
    }
}

/// The query and sort order that a typed search line stands for.
pub open spec fn parsed_query(input: Seq<char>) -> (Seq<char>, SortOrder) {
    scan_flags(trim(input), 0)
}

/// No character of `s` from position `i` on is `c`.
pub open spec fn no_char_from(s: Seq<char>, c: char, i: int) -> bool
    decreases s.len() - i,
{
    if i < 0 || i >= s.len() {
        true
    } else {
        s[i] != c && no_char_from(s, c, i + 1)
    }
}

/// No two hyphens follow each other in `s` from position `i` on.
pub open spec fn dash_pairs_from(s: Seq<char>, i: int) -> bool
    decreases s.len() - i,
{
    if i < 0 || i + 1 >= s.len() {
        true
    } else {
        !(s[i] == '-' && s[i + 1] == '-') && dash_pairs_from(s, i + 1)
    }
}

proof fn lemma_no_char_from(s: Seq<char>, c: char, i: int)
    requires
        0 <= i,
        no_char_from(s, c, i),
    ensures
        forall|j: int| i <= j < s.len() ==> s[j] != c,
    decreases s.len() - i,
{
    if i < s.len() {
        lemma_no_char_from(s, c, i + 1);
    }
}

proof fn lemma_dash_pairs_from(s: Seq<char>, i: int)
    requires
        0 <= i,
        dash_pairs_from(s, i),
    ensures
        forall|j: int| i <= j && j + 1 < s.len() ==> !(#[trigger] s[j] == '-' && s[j + 1] == '-'),
    decreases s.len() - i,
{
    if i + 1 < s.len() {
        lemma_dash_pairs_from(s, i + 1);
    }
}

/// Every sort flag starts with two hyphens, holds no other two hyphens in
/// a row and no space, and starts and ends with a character that is not
/// whitespace.
pub proof fn lemma_flag_shape(k: int)
    requires
        0 <= k < flag_count(),
    ensures
        flag(k).0.len() >= 2,
        flag(k).0[0] == '-',
        flag(k).0[1] == '-',
        !is_ws(flag(k).0[0]),
        !is_ws(flag(k).0.last()),
        forall|j: int| 0 <= j < flag(k).0.len() ==> flag(k).0[j] != ' ',
        forall|j: int|
            1 <= j && j + 1 < flag(k).0.len() ==> !(#[trigger] flag(k).0[j] == '-' && flag(k).0[j + 1]
                == '-'),
{
    reveal_with_fuel(no_char_from, 25);
    reveal_with_fuel(dash_pairs_from, 25);
    if k == 0 {
        reveal_strlit("--sort-by-views-desc");
        assert(flag(k).0.len() == 20);
        assert(no_char_from(flag(k).0, ' ', 0));
        assert(dash_pairs_from(flag(k).0, 1));
    } else if k == 1 {
        reveal_strlit("--sort-by-views-asc");
        assert(flag(k).0.len() == 19);
        assert(no_char_from(flag(k).0, ' ', 0));
        assert(dash_pairs_from(flag(k).0, 1));
    } else if k == 2 {
        reveal_strlit("--sort-by-views");
        assert(flag(k).0.len() == 15);
        assert(no_char_from(flag(k).0, ' ', 0));
        assert(dash_pairs_from(flag(k).0, 1));
    } else if k == 3 {
        reveal_strlit("--sort-by-duration-desc");
        assert(flag(k).0.len() == 23);
        assert(no_char_from(flag(k).0, ' ', 0));
        assert(dash_pairs_from(flag(k).0, 1));
    } else if k == 4 {
        reveal_strlit("--sort-by-duration-asc");
        assert(flag(k).0.len() == 22);
        assert(no_char_from(flag(k).0, ' ', 0));
        assert(dash_pairs_from(flag(k).0, 1));
    } else if k == 5 {
        reveal_strlit("--sort-by-duration");
        assert(flag(k).0.len() == 18);
        assert(no_char_from(flag(k).0, ' ', 0));
        assert(dash_pairs_from(flag(k).0, 1));
    } else if k == 6 {
        reveal_strlit("--most-viewed");
        assert(flag(k).0.len() == 13);
        assert(no_char_from(flag(k).0, ' ', 0));
        assert(dash_pairs_from(flag(k).0, 1));
    } else if k == 7 {
        reveal_strlit("--least-viewed");
        assert(flag(k).0.len() == 14);
        assert(no_char_from(flag(k).0, ' ', 0));
        assert(dash_pairs_from(flag(k).0, 1));
    } else if k == 8 {
        reveal_strlit("--longest");
        assert(flag(k).0.len() == 9);
        assert(no_char_from(flag(k).0, ' ', 0));
        assert(dash_pairs_from(flag(k).0, 1));
    } else {
        reveal_strlit("--shortest");
        assert(flag(k).0.len() == 10);
        assert(no_char_from(flag(k).0, ' ', 0));
        assert(dash_pairs_from(flag(k).0, 1));
    }
    lemma_no_char_from(flag(k).0, ' ', 0);
    lemma_dash_pairs_from(flag(k).0, 1);
}

/// No sort flag is the beginning of a flag that comes after it in the
/// table.
pub proof fn lemma_earlier_flag_not_prefix(m: int, k: int)
    requires
        0 <= m < k < flag_count(),
    ensures
        !(flag(m).0.len() <= flag(k).0.len() && flag(k).0.subrange(0, flag(m).0.len() as int)
            == flag(m).0),
{
    reveal_strlit("--sort-by-views-desc");
    reveal_strlit("--sort-by-views-asc");
    reveal_strlit("--sort-by-views");
    reveal_strlit("--sort-by-duration-desc");
    reveal_strlit("--sort-by-duration-asc");
    reveal_strlit("--sort-by-duration");
    reveal_strlit("--most-viewed");
    reveal_strlit("--least-viewed");
    reveal_strlit("--longest");
    reveal_strlit("--shortest");
    if m == 0 && k == 3 {
        reveal_strlit("--sort-by-views-desc");
        reveal_strlit("--sort-by-duration-desc");
        assert(flag(k).0.subrange(0, flag(m).0.len() as int)[10] != flag(m).0[10]);
    }
    if m == 0 && k == 4 {
        reveal_strlit("--sort-by-views-desc");
        reveal_strlit("--sort-by-duration-asc");
        assert(flag(k).0.subrange(0, flag(m).0.len() as int)[10] != flag(m).0[10]);
    }
    if m == 1 && k == 3 {
        reveal_strlit("--sort-by-views-asc");
        reveal_strlit("--sort-by-duration-desc");
        assert(flag(k).0.subrange(0, flag(m).0.len() as int)[10] != flag(m).0[10]);
    }
    if m == 1 && k == 4 {
        reveal_strlit("--sort-by-views-asc");
        reveal_strlit("--sort-by-duration-asc");
        assert(flag(k).0.subrange(0, flag(m).0.len() as int)[10] != flag(m).0[10]);
    }
    if m == 2 && k == 3 {
        reveal_strlit("--sort-by-views");
        reveal_strlit("--sort-by-duration-desc");
        assert(flag(k).0.subrange(0, flag(m).0.len() as int)[10] != flag(m).0[10]);
    }
    if m == 2 && k == 4 {
        reveal_strlit("--sort-by-views");
        reveal_strlit("--sort-by-duration-asc");
        assert(flag(k).0.subrange(0, flag(m).0.len() as int)[10] != flag(m).0[10]);
    }
    if m == 2 && k == 5 {
        reveal_strlit("--sort-by-views");
        reveal_strlit("--sort-by-duration");
        assert(flag(k).0.subrange(0, flag(m).0.len() as int)[10] != flag(m).0[10]);
    }
    if m == 6 && k == 7 {
        reveal_strlit("--most-viewed");
        reveal_strlit("--least-viewed");
        assert(flag(k).0.subrange(0, flag(m).0.len() as int)[2] != flag(m).0[2]);
    }
    if m == 8 && k == 9 {
        reveal_strlit("--longest");
        reveal_strlit("--shortest");
        assert(flag(k).0.subrange(0, flag(m).0.len() as int)[2] != flag(m).0[2]);
    }
}

/// A match that `find_from` reports is a real match, at or after `i`.
pub proof fn lemma_find_from_matches(s: Seq<char>, pat: Seq<char>, i: int)
    ensures
        find_from(s, pat, i) matches Some(j) ==> i <= j && matches_at(s, pat, j),
    decreases s.len() + 1 - i,
{
    if !(i < 0 || i + pat.len() > s.len()) && !matches_at(s, pat, i) {
        lemma_find_from_matches(s, pat, i + 1);
    }
}

/// The `k`-th sort flag and its order.
fn flag_at(k: usize) -> (r: (&'static str, SortOrder))
    requires
        k < flag_count(),
    ensures
        (r.0@, r.1) == flag(k as int),
{
    if k == 0 {
        ("--sort-by-views-desc", SortOrder::ViewsDesc)
    } else if k == 1 {
        ("--sort-by-views-asc", SortOrder::ViewsAsc)
    } else if k == 2 {
        ("--sort-by-views", SortOrder::ViewsDesc)
    } else if k == 3 {
        ("--sort-by-duration-desc", SortOrder::DurationDesc)
    } else if k == 4 {
        ("--sort-by-duration-asc", SortOrder::DurationAsc)
    } else if k == 5 {
        ("--sort-by-duration", SortOrder::DurationDesc)
    } else if k == 6 {
        ("--most-viewed", SortOrder::ViewsDesc)
    } else if k == 7 {
        ("--least-viewed", SortOrder::ViewsAsc)
    } else if k == 8 {
        ("--longest", SortOrder::DurationDesc)
    } else {
        ("--shortest", SortOrder::DurationAsc)
    }
}

/// Splits a typed search line into the search query and the sort order
/// that a flag in it asks for (see `parsed_query`).
pub fn parse_query_and_sort(input: &str) -> (r: (String, SortOrder))
    ensures
        (r.0@, r.1) == parsed_query(input@),
{
    let v = chars_of(input);
    let (a, b) = trim_bounds(&v, 0, v.len());
    assert(v@.subrange(0, v@.len() as int) =~= v@);
    let t = string_of(&v, a, b);
    let tc = chars_of(t.as_str());
    let mut k: usize = 0;
    while k < 10
        invariant
            0 <= k <= flag_count(),
            tc@ == trim(input@),
            parsed_query(input@) == scan_flags(tc@, k as int),
        decreases 10 - k,
    {
        let (fl, order) = flag_at(k);
        let pat = chars_of(fl);
        match find_chars(&tc, &pat) {
            Some(pos) => {
                proof {
                    lemma_find_from_matches(tc@, pat@, 0);
                }
                let end = pos + pat.len();
                let (b0, b1) = trim_bounds(&tc, 0, pos);
                let (a0, a1) = trim_bounds(&tc, end, tc.len());
                let mut q = String::new();
                push_chars(&mut q, &tc, b0, b1);
                if a1 > a0 {
                    if b1 > b0 {
                        push_char(&mut q, ' ');
                    }
                    push_chars(&mut q, &tc, a0, a1);
                }
                return (q, order);
            },
            None => {},
        }
        k = k + 1;
    }
    (t, SortOrder::Default)
}

} // verus!
