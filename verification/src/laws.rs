//! Properties of the library that span several operations or hold of
//! every input, each proved over the specifications the operations meet.
use vstd::prelude::*;

use crate::app::{
    finish_load_step, finish_play_step, key_step, load_cached_step, new_search_state,
    next_selection, prev_selection, selected_of, store_fetched_step, AppView, Command, InputMode,
    Key, LoadPurpose,
};
use crate::query::{
    flag, flag_count, join_query, lemma_earlier_flag_not_prefix, lemma_flag_shape, parsed_query,
    scan_flags, SortOrder,
};
use crate::screen::{help_area, row_label_text, row_number, truncated};
use crate::search::{
    lemma_line_end_bounds, line_end, line_text, page_window, record_lines, search_term_text,
    RESULTS_PER_PAGE,
};
use crate::sort::{is_permutation, sort_key, stable_sort_by, stably_sorted, takes_value};
use crate::text::{
    find, is_ws, lemma_find_from_first, lemma_find_from_none, lemma_match_after_parts,
    lemma_match_in_parts, lemma_match_in_subrange, lemma_trim_after_trim_end,
    lemma_trim_end_concat, lemma_trim_end_prefix, lemma_trim_start_concat,
    lemma_trim_start_suffix, matches_at, occurs_from, trim, trim_end, trim_start, decimal, digit,
    two_digits,
};
use crate::video::{clock_text, playback_url_of, title_text, view_count_class, Video, ViewCount};

verus! {

/// Whether input position `x` comes before input position `y` in the
/// stable order: a smaller key, or an equal key and an earlier position.
pub open spec fn stable_before(order: SortOrder, input: Seq<Video>, x: int, y: int) -> bool {
    ||| sort_key(order, input[x]) < sort_key(order, input[y])
    ||| sort_key(order, input[x]) == sort_key(order, input[y]) && x < y
}

/// Two arrangements that both sort `input` stably agree on every
/// position below `k`.
proof fn lemma_arrangements_agree(
    order: SortOrder,
    input: Seq<Video>,
    a: Seq<Video>,
    p: Seq<int>,
    b: Seq<Video>,
    q: Seq<int>,
    k: int,
)
    requires
        stable_sort_by(order, input, a, p),
        stable_sort_by(order, input, b, q),
        0 <= k <= input.len(),
    ensures
        forall|i: int| 0 <= i < k ==> p[i] == q[i],
    decreases k,
{
    if k > 0 {
        lemma_arrangements_agree(order, input, a, p, b, q, k - 1);
        let n = input.len() as int;
        let m = k - 1;
        let x = p[m];
        let y = q[m];
        assert(takes_value(q, n, x));
        let j = choose|i: int| 0 <= i < n && q[i] == x;
        assert(takes_value(p, n, y));
        let j2 = choose|i: int| 0 <= i < n && p[i] == y;
        if j < m {
            assert(p[j] == q[j]);
            assert(p[j] != p[m]);
        }
        if j2 < m {
            assert(p[j2] == q[j2]);
            assert(q[j2] != q[m]);
        }
        if x != y {
            assert(j > m);
            assert(j2 > m);
            assert(a[m] == input[x] && a[j2] == input[y]);
            assert(b[m] == input[y] && b[j] == input[x]);
            assert(sort_key(order, a[m]) <= sort_key(order, a[j2]));
            assert(sort_key(order, b[m]) <= sort_key(order, b[j]));
        }
    }
}

/// A stable sort has one outcome: two results of stably sorting the same
/// list by the same order are the same list.
pub proof fn law_stable_sort_is_unique(
    order: SortOrder,
    input: Seq<Video>,
    a: Seq<Video>,
    b: Seq<Video>,
)
    requires
        stably_sorted(order, input, a),
        stably_sorted(order, input, b),
    ensures
        a == b,
{
    let p = choose|perm: Seq<int>| stable_sort_by(order, input, a, perm);
    let q = choose|perm: Seq<int>| stable_sort_by(order, input, b, perm);
    lemma_arrangements_agree(order, input, a, p, b, q, input.len() as int);
    assert forall|i: int| 0 <= i < a.len() implies a[i] == b[i] by {
        assert(a[i] == input[p[i]]);
        assert(b[i] == input[q[i]]);
    }
    assert(a =~= b);
}

/// A stably sorted list is its own stable sort.
proof fn lemma_sorted_sorts_to_itself(
    order: SortOrder,
    input: Seq<Video>,
    once: Seq<Video>,
)
    requires
        stably_sorted(order, input, once),
    ensures
        stably_sorted(order, once, once),
{
    let p = choose|perm: Seq<int>| stable_sort_by(order, input, once, perm);
    let n = once.len() as int;
    let id = Seq::new(once.len(), |k: int| k);
    assert forall|k: int| 0 <= k < n implies #[trigger] takes_value(id, n, k) by {
        assert(id[k] == k);
    }
    assert(is_permutation(id, n));
    assert(stable_sort_by(order, once, once, id));
}

/// Sorting a sorted list again by the same order changes nothing.
pub proof fn law_sorting_twice_changes_nothing(
    order: SortOrder,
    input: Seq<Video>,
    once: Seq<Video>,
    twice: Seq<Video>,
)
    requires
        stably_sorted(order, input, once),
        stably_sorted(order, once, twice),
    ensures
        twice == once,
{
    lemma_sorted_sorts_to_itself(order, input, once);
    law_stable_sort_is_unique(order, once, once, twice);
}

/// Every fetched page holds from one to `RESULTS_PER_PAGE` results and is
/// already in the current sort order (sorting it again changes nothing).
pub open spec fn pages_well_kept(s: AppView) -> bool {
    forall|p: usize|
        #[trigger] s.cache.contains_key(p) ==> {
            &&& 1 <= s.cache[p].len() <= RESULTS_PER_PAGE
            &&& stably_sorted(s.sort_order, s.cache[p], s.cache[p])
        }
}

/// Showing a fetched page keeps the fetched pages well kept, and when the
/// page holds results its first row is highlighted.
pub proof fn law_cached_load_keeps_pages(s0: AppView, page: usize, s1: AppView, r: Option<bool>)
    requires
        pages_well_kept(s0),
        load_cached_step(s0, page, s1, r),
    ensures
        pages_well_kept(s1),
        r == Some(true) ==> s1.videos.len() > 0 && selected_of(s1) == Some(s1.videos[0]),
{
}

/// Taking a fetched page of at most `RESULTS_PER_PAGE` results keeps the
/// fetched pages well kept, and when it held results its first row is
/// highlighted; a fetch that found nothing changes nothing.
pub proof fn law_fetched_load_keeps_pages(
    s0: AppView,
    page: usize,
    fetched: Seq<Video>,
    s1: AppView,
    r: bool,
)
    requires
        pages_well_kept(s0),
        fetched.len() <= RESULTS_PER_PAGE,
        store_fetched_step(s0, page, fetched, s1, r),
    ensures
        pages_well_kept(s1),
        r ==> s1.videos.len() > 0 && selected_of(s1) == Some(s1.videos[0]),
        !r ==> s1 == s0,
{
    if r {
        lemma_sorted_sorts_to_itself(s0.sort_order, fetched, s1.videos);
        let perm = choose|perm: Seq<int>| stable_sort_by(s0.sort_order, fetched, s1.videos, perm);
        assert(s1.videos.len() == fetched.len());
        assert forall|p: usize| #[trigger] s1.cache.contains_key(p) implies {
            &&& 1 <= s1.cache[p].len() <= RESULTS_PER_PAGE
            &&& stably_sorted(s1.sort_order, s1.cache[p], s1.cache[p])
        } by {
            if p != page {
                assert(s0.cache.contains_key(p));
            }
        }
    }
}

/// Key presses and the reports of loads and playbacks keep the fetched
/// pages well kept.
pub proof fn law_steps_keep_pages(
    s0: AppView,
    key: Key,
    s1: AppView,
    cmd: Command,
    purpose: LoadPurpose,
    outcome: Result<bool, Seq<char>>,
    s2: AppView,
    played: Result<(), Seq<char>>,
    s3: AppView,
)
    requires
        pages_well_kept(s0),
        key_step(s0, key, s1, cmd),
        finish_load_step(s0, purpose, outcome, s2),
        finish_play_step(s0, played, s3),
    ensures
        pages_well_kept(crate::app::initial_state()),
        pages_well_kept(s1),
        pages_well_kept(s2),
        pages_well_kept(s3),
{
    if s0.input_mode == InputMode::Search && key == Key::Enter && trim(s0.input_buf).len() > 0 {
        assert(s1.cache == Map::<usize, Seq<Video>>::empty());
    }
}

/// `trim_start` leaves nothing that starts with whitespace.
proof fn lemma_trim_start_shape(s: Seq<char>)
    ensures
        trim_start(s).len() == 0 || !is_ws(trim_start(s)[0]),
    decreases s.len(),
{
    if s.len() > 0 && is_ws(s[0]) {
        lemma_trim_start_shape(s.drop_first());
    }
}

/// `trim_end` keeps a prefix that does not end with whitespace.
proof fn lemma_trim_end_shape(s: Seq<char>)
    ensures
        trim_end(s).len() <= s.len(),
        trim_end(s) == s.take(trim_end(s).len() as int),
        trim_end(s).len() == 0 || !is_ws(trim_end(s).last()),
    decreases s.len(),
{
    if s.len() > 0 && is_ws(s.last()) {
        lemma_trim_end_shape(s.drop_last());
        assert(s.drop_last().take(trim_end(s).len() as int) =~= s.take(trim_end(s).len() as int));
    } else {
        assert(s.take(s.len() as int) =~= s);
    }
}

/// Whether `s` neither starts nor ends with whitespace.
pub open spec fn is_trimmed(s: Seq<char>) -> bool {
    s.len() == 0 || (!is_ws(s[0]) && !is_ws(s.last()))
}

/// What `trim` gives neither starts nor ends with whitespace, and `trim`
/// leaves such a text as it is.
proof fn lemma_trim_shape(s: Seq<char>)
    ensures
        is_trimmed(trim(s)),
        is_trimmed(s) ==> trim(s) == s,
{
    lemma_trim_start_shape(s);
    lemma_trim_end_shape(trim_start(s));
    let u = trim_start(s);
    let v = trim(s);
    if v.len() > 0 {
        assert(v[0] == u.take(v.len() as int)[0]);
    }
    if is_trimmed(s) && s.len() > 0 {
        assert(trim_start(s) == s);
        assert(trim_end(s) == s);
    }
}

/// Joining two trimmed parts gives a trimmed query.
proof fn lemma_join_trimmed(before: Seq<char>, after: Seq<char>)
    requires
        is_trimmed(before),
        is_trimmed(after),
    ensures
        is_trimmed(join_query(before, after)),
{
    if after.len() > 0 && before.len() > 0 {
        let j = before + seq![' '] + after;
        assert(j[0] == before[0]);
        assert(j.last() == after.last());
    }
}

/// The flags from the `k`-th on leave a trimmed query when the input is
/// trimmed.
proof fn lemma_scan_trimmed(t: Seq<char>, k: int)
    requires
        is_trimmed(t),
    ensures
        is_trimmed(scan_flags(t, k).0),
    decreases flag_count() - k,
{
    if !(k < 0 || k >= flag_count()) {
        match find(t, flag(k).0) {
            Some(pos) => {
                lemma_trim_shape(t.subrange(0, pos));
                lemma_trim_shape(t.subrange(pos + flag(k).0.len(), t.len() as int));
                lemma_join_trimmed(
                    trim(t.subrange(0, pos)),
                    trim(t.subrange(pos + flag(k).0.len(), t.len() as int)),
                );
            },
            None => {
                lemma_scan_trimmed(t, k + 1);
            },
        }
    }
}

/// The query parsed from a search line never starts or ends with
/// whitespace, so trimming it again changes nothing.
pub proof fn law_parsed_query_is_trimmed(input: Seq<char>)
    ensures
        trim(parsed_query(input).0) == parsed_query(input).0,
{
    lemma_trim_shape(input);
    lemma_scan_trimmed(trim(input), 0);
    lemma_trim_shape(parsed_query(input).0);
}

/// A search line that holds no sort flag is run as it is typed, trimmed,
/// in the default order.
pub proof fn law_no_flag_keeps_query(input: Seq<char>)
    requires
        forall|k: int|
            0 <= k < flag_count() ==> #[trigger] find(trim(input), flag(k).0) is None,
    ensures
        parsed_query(input) == (trim(input), SortOrder::Default),
{
    assert forall|k: int| 0 <= k <= flag_count() implies #[trigger] scan_flags(trim(input), k) == (
    trim(input), SortOrder::Default) by {
        lemma_scan_default(trim(input), k);
    }
}

proof fn lemma_scan_default(t: Seq<char>, k: int)
    requires
        0 <= k <= flag_count(),
        forall|m: int| 0 <= m < flag_count() ==> #[trigger] find(t, flag(m).0) is None,
    ensures
        scan_flags(t, k) == (t, SortOrder::Default),
    decreases flag_count() - k,
{
    if k < flag_count() {
        assert(find(t, flag(k).0) is None);
        lemma_scan_default(t, k + 1);
    }
}

/// No sort flag occurs anywhere in `s`.
pub open spec fn holds_no_flag(s: Seq<char>) -> bool {
    forall|m: int, i: int| 0 <= m < flag_count() ==> !#[trigger] matches_at(s, flag(m).0, i)
}

/// A part of a text that holds no flag holds no flag.
proof fn lemma_no_flag_in_part(s: Seq<char>, d: int, e: int)
    requires
        holds_no_flag(s),
        0 <= d <= e <= s.len(),
    ensures
        holds_no_flag(s.subrange(d, e)),
{
    assert forall|m: int, i: int| 0 <= m < flag_count() implies !#[trigger] matches_at(
        s.subrange(d, e),
        flag(m).0,
        i,
    ) by {
        if matches_at(s.subrange(d, e), flag(m).0, i) {
            lemma_match_in_subrange(s, d, e, flag(m).0, i);
        }
    }
}

/// A flag occurs inside the `k`-th flag only at its start, and only when
/// it does not come before the `k`-th flag in the table.
proof fn lemma_flag_in_flag(m: int, k: int, j: int)
    requires
        0 <= m < flag_count(),
        0 <= k < flag_count(),
        matches_at(flag(k).0, flag(m).0, j),
    ensures
        j == 0,
        k <= m,
{
    lemma_flag_shape(k);
    lemma_flag_shape(m);
    let f = flag(k).0;
    let p = flag(m).0;
    assert(f.subrange(j, j + p.len())[0] == p[0]);
    assert(f.subrange(j, j + p.len())[1] == p[1]);
    assert(f[j] == '-' && f[j + 1] == '-');
    if m < k {
        lemma_earlier_flag_not_prefix(m, k);
    }
}

/// The flags before the `k`-th do not occur in `t`, so the scan gets to
/// the `k`-th, which first occurs at `pos`.
proof fn lemma_scan_to(t: Seq<char>, k: int, pos: int, m: int)
    requires
        0 <= m <= k < flag_count(),
        forall|mm: int| 0 <= mm < k ==> #[trigger] find(t, flag(mm).0) is None,
        find(t, flag(k).0) == Some(pos),
    ensures
        scan_flags(t, m) == (
            join_query(
                trim(t.subrange(0, pos)),
                trim(t.subrange(pos + flag(k).0.len(), t.len() as int)),
            ),
            flag(k).1,
        ),
    decreases k - m,
{
    if m < k {
        assert(find(t, flag(m).0) is None);
        lemma_scan_to(t, k, pos, m + 1);
    }
}

/// No earlier flag than the `k`-th occurs in `t`: every occurrence of a
/// flag in `t` is an occurrence inside the `k`-th flag, or there is none.
proof fn lemma_earlier_flags_absent(t: Seq<char>, k: int, inside: spec_fn(int, int) -> bool)
    requires
        0 <= k < flag_count(),
        forall|m: int, i: int|
            0 <= m < flag_count() && #[trigger] matches_at(t, flag(m).0, i) ==> inside(m, i),
        forall|m: int, i: int|
            0 <= m < flag_count() && #[trigger] inside(m, i) ==> k <= m,
    ensures
        forall|m: int| 0 <= m < k ==> #[trigger] find(t, flag(m).0) is None,
{
    assert forall|m: int| 0 <= m < k implies #[trigger] find(t, flag(m).0) is None by {
        lemma_find_from_none(t, flag(m).0, 0);
        if occurs_from(t, flag(m).0, 0) {
            let i = choose|i: int| 0 <= i && #[trigger] matches_at(t, flag(m).0, i);
            assert(inside(m, i));
        }
    }
}

/// The flags in `w + " " + f`, where `f` is the `k`-th flag and `w`
/// holds no flag.
proof fn lemma_flag_last(w: Seq<char>, k: int)
    requires
        0 <= k < flag_count(),
        holds_no_flag(w),
    ensures
        forall|m: int| 0 <= m < k ==> #[trigger] find(w + seq![' '] + flag(k).0, flag(m).0) is None,
        find(w + seq![' '] + flag(k).0, flag(k).0) == Some(w.len() + 1int),
{
    let f = flag(k).0;
    let t = w + seq![' '] + f;
    let inside = |m: int, i: int| matches_at(f, flag(m).0, i - w.len() - 1);
    assert forall|m: int, i: int|
        0 <= m < flag_count() && #[trigger] matches_at(t, flag(m).0, i) implies inside(m, i) by {
        lemma_flag_shape(m);
        lemma_match_in_parts(w, ' ', f, flag(m).0, i);
    }
    assert forall|m: int, i: int| 0 <= m < flag_count() && #[trigger] inside(m, i) implies k <= m by {
        lemma_flag_in_flag(m, k, i - w.len() - 1);
    }
    lemma_earlier_flags_absent(t, k, inside);
    assert(f.subrange(0, f.len() as int) =~= f);
    lemma_match_after_parts(w, ' ', f, f, 0);
    assert forall|i: int| 0 <= i < w.len() + 1 implies !#[trigger] matches_at(t, f, i) by {
        lemma_flag_shape(k);
        if matches_at(t, f, i) {
            lemma_match_in_parts(w, ' ', f, f, i);
        }
    }
    lemma_find_from_first(t, f, 0, w.len() + 1int);
}

/// The flags in `f + " " + e`, where `f` is the `k`-th flag and `e`
/// holds no flag.
proof fn lemma_flag_first(e: Seq<char>, k: int)
    requires
        0 <= k < flag_count(),
        holds_no_flag(e),
    ensures
        forall|m: int| 0 <= m < k ==> #[trigger] find(flag(k).0 + seq![' '] + e, flag(m).0) is None,
        find(flag(k).0 + seq![' '] + e, flag(k).0) == Some(0int),
{
    let f = flag(k).0;
    let t = f + seq![' '] + e;
    let inside = |m: int, i: int| matches_at(f, flag(m).0, i);
    assert forall|m: int, i: int|
        0 <= m < flag_count() && #[trigger] matches_at(t, flag(m).0, i) implies inside(m, i) by {
        lemma_flag_shape(m);
        lemma_match_in_parts(f, ' ', e, flag(m).0, i);
    }
    assert forall|m: int, i: int| 0 <= m < flag_count() && #[trigger] inside(m, i) implies k <= m by {
        lemma_flag_in_flag(m, k, i);
    }
    lemma_earlier_flags_absent(t, k, inside);
    assert(t.subrange(0, f.len() as int) =~= f);
    lemma_find_from_first(t, f, 0, 0);
}

/// The flags in the `k`-th flag alone.
proof fn lemma_flag_only(k: int)
    requires
        0 <= k < flag_count(),
    ensures
        forall|m: int| 0 <= m < k ==> #[trigger] find(flag(k).0, flag(m).0) is None,
        find(flag(k).0, flag(k).0) == Some(0int),
{
    let f = flag(k).0;
    let inside = |m: int, i: int| matches_at(f, flag(m).0, i);
    assert forall|m: int, i: int| 0 <= m < flag_count() && #[trigger] inside(m, i) implies k <= m by {
        lemma_flag_in_flag(m, k, i);
    }
    lemma_earlier_flags_absent(f, k, inside);
    assert(f.subrange(0, f.len() as int) =~= f);
    lemma_find_from_first(f, f, 0, 0);
}

/// A search line made of a query that holds no sort flag and one flag
/// after it, separated by a space, selects the flag's order and leaves
/// the trimmed query.
proof fn lemma_flag_after_query(q: Seq<char>, k: int)
    requires
        0 <= k < flag_count(),
        holds_no_flag(q),
    ensures
        parsed_query(q + seq![' '] + flag(k).0) == (trim(q), flag(k).1),
{
    let f = flag(k).0;
    let s = q + seq![' '] + f;
    let sf = seq![' '] + f;
    lemma_flag_shape(k);
    assert(s =~= q + sf);
    lemma_trim_start_concat(q, sf);
    assert(sf.drop_first() =~= f);
    assert(sf[0] == ' ' && is_ws(' '));
    assert(trim_start(f) == f);
    assert(trim_start(sf) == f);
    let u = trim_start(q);
    lemma_trim_start_shape(q);
    let empty = Seq::<char>::empty();
    assert(trim_start(empty) == empty && trim_end(empty) == empty);
    if u.len() > 0 {
        let t = u + seq![' '] + f;
        assert(trim_start(s) =~= t);
        assert(t.last() == f.last());
        assert(trim(s) == t);
        lemma_trim_start_suffix(q);
        lemma_no_flag_in_part(q, q.len() - u.len(), q.len() as int);
        lemma_flag_last(u, k);
        lemma_scan_to(t, k, u.len() + 1int, 0);
        assert(t.subrange(0, u.len() + 1int) =~= u + seq![' ']);
        assert(t.subrange(u.len() + 1int + f.len(), t.len() as int) =~= empty);
        assert(trim_start(u + seq![' ']) == u + seq![' ']) by {
            assert((u + seq![' '])[0] == u[0]);
        }
        assert((u + seq![' ']).drop_last() =~= u);
        assert(trim(u + seq![' ']) == trim_end(u));
    } else {
        assert(trim_start(s) == f);
        assert(trim(s) == f);
        lemma_flag_only(k);
        lemma_scan_to(f, k, 0, 0);
        assert(f.subrange(0, 0) =~= empty);
        assert(f.subrange(f.len() as int, f.len() as int) =~= empty);
    }
}

/// A search line made of one sort flag and, after a space, a query that
/// holds no flag selects the flag's order and leaves the trimmed query.
proof fn lemma_flag_before_query(q: Seq<char>, k: int)
    requires
        0 <= k < flag_count(),
        holds_no_flag(q),
    ensures
        parsed_query(flag(k).0 + seq![' '] + q) == (trim(q), flag(k).1),
{
    let f = flag(k).0;
    let fs = f + seq![' '];
    let s = fs + q;
    lemma_flag_shape(k);
    assert(s[0] == f[0]);
    assert(trim_start(s) == s);
    lemma_trim_end_concat(fs, q);
    let e = trim_end(q);
    let empty = Seq::<char>::empty();
    assert(trim_start(empty) == empty && trim_end(empty) == empty);
    lemma_trim_after_trim_end(q);
    if e.len() > 0 {
        let t = f + seq![' '] + e;
        assert(trim(s) =~= t);
        lemma_trim_end_prefix(q);
        lemma_no_flag_in_part(q, 0, e.len() as int);
        lemma_flag_first(e, k);
        lemma_scan_to(t, k, 0, 0);
        assert(t.subrange(0, 0) =~= empty);
        let se = seq![' '] + e;
        assert(t.subrange(f.len() as int, t.len() as int) =~= se);
        assert(se.drop_first() =~= e);
        assert(trim_start(se) == trim_start(e));
        assert(trim(se) == trim(e));
    } else {
        assert(fs.drop_last() =~= f);
        assert(trim_end(fs) == trim_end(f));
        assert(trim(s) == f);
        lemma_flag_only(k);
        lemma_scan_to(f, k, 0, 0);
        assert(f.subrange(0, 0) =~= empty);
        assert(f.subrange(f.len() as int, f.len() as int) =~= empty);
    }
}

/// Each sort flag, written after a query that holds no flag or before
/// it, separated by a space, selects its order and is removed, leaving
/// the trimmed query.
pub proof fn law_flag_before_or_after_query(q: Seq<char>, k: int)
    requires
        0 <= k < flag_count(),
        forall|m: int| 0 <= m < flag_count() ==> #[trigger] find(q, flag(m).0) is None,
    ensures
        parsed_query(q + seq![' '] + flag(k).0) == (trim(q), flag(k).1),
        parsed_query(flag(k).0 + seq![' '] + q) == (trim(q), flag(k).1),
{
    assert forall|m: int, i: int| 0 <= m < flag_count() implies !#[trigger] matches_at(
        q,
        flag(m).0,
        i,
    ) by {
        assert(find(q, flag(m).0) is None);
        lemma_find_from_none(q, flag(m).0, 0);
        if matches_at(q, flag(m).0, i) {
            assert(occurs_from(q, flag(m).0, 0));
        }
    }
    lemma_flag_after_query(q, k);
    lemma_flag_before_query(q, k);
}

/// A page taken from fetched results is shown again from the fetched
/// pages, unchanged and without fetching, when it is asked for again.
pub proof fn law_fetched_page_is_reused(
    s0: AppView,
    page: usize,
    fetched: Seq<Video>,
    s1: AppView,
    r1: bool,
    s2: AppView,
    r2: Option<bool>,
)
    requires
        fetched.len() > 0,
        store_fetched_step(s0, page, fetched, s1, r1),
        load_cached_step(s1, page, s2, r2),
    ensures
        r2 == Some(true),
        s2.videos == s1.videos,
        s2.page == page,
        s2.selected == Some(0usize),
        s2.cache == s1.cache,
{
    let perm = choose|perm: Seq<int>| stable_sort_by(s0.sort_order, fetched, s1.videos, perm);
    assert(s1.videos.len() == fetched.len());
}

/// Running a new search line forgets every fetched page: the first page
/// of the new query is fetched, and so is any page asked for after it.
pub proof fn law_new_search_forgets_pages(
    s0: AppView,
    s1: AppView,
    cmd: Command,
    page: usize,
    s2: AppView,
    r: Option<bool>,
)
    requires
        s0.input_mode == InputMode::Search,
        trim(s0.input_buf).len() > 0,
        key_step(s0, Key::Enter, s1, cmd),
        load_cached_step(s1, page, s2, r),
    ensures
        cmd == (Command::Load { page: 0, purpose: LoadPurpose::NewSearch }),
        s1 == new_search_state(s0),
        s1.page == 0,
        r is None,
        s2 == s1,
{
}

/// The fetched pages are only forgotten by running a new search line:
/// every other key press, showing a fetched page, and reporting how a
/// load or a playback went leave them as they are.
pub proof fn law_fetched_pages_are_kept(
    s0: AppView,
    key: Key,
    s1: AppView,
    cmd: Command,
    page: usize,
    s2: AppView,
    r: Option<bool>,
    purpose: LoadPurpose,
    outcome: Result<bool, Seq<char>>,
    s3: AppView,
    played: Result<(), Seq<char>>,
    s4: AppView,
)
    requires
        key_step(s0, key, s1, cmd),
        !(s0.input_mode == InputMode::Search && key == Key::Enter && trim(s0.input_buf).len()
            > 0),
        load_cached_step(s0, page, s2, r),
        finish_load_step(s0, purpose, outcome, s3),
        finish_play_step(s0, played, s4),
    ensures
        s1.cache == s0.cache,
        s2.cache == s0.cache,
        s3.cache == s0.cache,
        s4.cache == s0.cache,
{
}

/// Moving the highlight keeps it on the list: on a non-empty list, after
/// moving down, or after moving up from a row on the list (or from no
/// row), the highlighted row is a row of the list.
pub proof fn law_selection_stays_on_list(selected: Option<usize>, len: int)
    requires
        0 < len <= usize::MAX,
    ensures
        next_selection(selected, len) matches Some(i) && i < len,
        (selected matches Some(i) ==> i < len) ==> (prev_selection(selected, len) matches Some(j)
            && j < len),
{
}

/// Moving down and then up, from a row that is not the last, comes back
/// to it; so does moving up and then down from a row that is not the
/// first.
pub proof fn law_down_then_up_returns(i: usize, len: int)
    requires
        0 < len <= usize::MAX,
        i < len,
    ensures
        i + 1 < len ==> prev_selection(next_selection(Some(i), len), len) == Some(i),
        0 < i ==> next_selection(prev_selection(Some(i), len), len) == Some(i),
{
}

/// The rows of consecutive pages are numbered without a gap: the first
/// row of the next page follows the last row of a page.
pub proof fn law_row_numbers_continue(page: int)
    requires
        0 <= page,
    ensures
        row_number(RESULTS_PER_PAGE - 1, page) + 1 == row_number(0, page + 1),
        row_number(0, page) == page * RESULTS_PER_PAGE + 1,
{
}

/// A page holds at most `RESULTS_PER_PAGE` results, and exactly that many
/// when the search found enough results to fill it.
pub proof fn law_page_size(all: Seq<Video>, page: int)
    requires
        0 <= page,
    ensures
        page_window(all, page).len() <= RESULTS_PER_PAGE,
        all.len() >= (page + 1) * RESULTS_PER_PAGE ==> page_window(all, page).len()
            == RESULTS_PER_PAGE,
{
}

/// A shortened title is `max_len + 2` characters long (its kept part and
/// the ellipsis) and starts like the title; a title that fits is kept.
pub proof fn law_truncated_length(s: Seq<char>, max_len: int)
    requires
        0 < max_len,
    ensures
        s.len() > max_len ==> truncated(s, max_len).len() == max_len + 2 && truncated(
            s,
            max_len,
        ).take(max_len - 1) == s.take(max_len - 1),
        s.len() <= max_len ==> truncated(s, max_len) == s,
{
    if s.len() > max_len {
        reveal_strlit("...");
        assert(truncated(s, max_len).take(max_len - 1) =~= s.take(max_len - 1));
    }
}


/// The known view count of a video, or `None`.
pub open spec fn views(v: Video) -> Option<u64> {
    v.view_count
}

/// The rank of a video's length, with `fill` standing for an unknown one.
pub open spec fn rank_or(v: Video, fill: u64) -> u64 {
    match v.duration {
        Some(len) => len.rank,
        None => fill,
    }
}

/// The sort orders put videos where the original puts them: a larger
/// known view count strictly before a smaller one for most views first
/// (and after it for fewest views first), and a longer length strictly
/// before a shorter one for longest first (and after it for shortest
/// first), unknown lengths standing for zero seconds and for the largest
/// finite number of seconds respectively.
pub proof fn law_sort_keys_follow_counts_and_lengths(a: Video, b: Video)
    ensures
        views(a) matches Some(x) && views(b) matches Some(y) && x > y ==> sort_key(
            SortOrder::ViewsDesc,
            a,
        ) < sort_key(SortOrder::ViewsDesc, b) && sort_key(SortOrder::ViewsAsc, b) < sort_key(
            SortOrder::ViewsAsc,
            a,
        ),
        views(a) is Some && views(b) is None ==> sort_key(SortOrder::ViewsDesc, a) < sort_key(
            SortOrder::ViewsDesc,
            b,
        ) && sort_key(SortOrder::ViewsAsc, b) < sort_key(SortOrder::ViewsAsc, a),
        views(a) == views(b) ==> sort_key(SortOrder::ViewsDesc, a) == sort_key(
            SortOrder::ViewsDesc,
            b,
        ) && sort_key(SortOrder::ViewsAsc, a) == sort_key(SortOrder::ViewsAsc, b),
        rank_or(a, 0x8000_0000_0000_0000) > rank_or(b, 0x8000_0000_0000_0000) ==> sort_key(
            SortOrder::DurationDesc,
            a,
        ) < sort_key(SortOrder::DurationDesc, b),
        rank_or(a, 0x8000_0000_0000_0000) == rank_or(b, 0x8000_0000_0000_0000) ==> sort_key(
            SortOrder::DurationDesc,
            a,
        ) == sort_key(SortOrder::DurationDesc, b),
        rank_or(a, 0xffef_ffff_ffff_ffff) < rank_or(b, 0xffef_ffff_ffff_ffff) ==> sort_key(
            SortOrder::DurationAsc,
            a,
        ) < sort_key(SortOrder::DurationAsc, b),
        rank_or(a, 0xffef_ffff_ffff_ffff) == rank_or(b, 0xffef_ffff_ffff_ffff) ==> sort_key(
            SortOrder::DurationAsc,
            a,
        ) == sort_key(SortOrder::DurationAsc, b),
        sort_key(SortOrder::Default, a) == sort_key(SortOrder::Default, b),
{
}

/// A page sorted by most views holds its known counts from largest to
/// smallest with the unknown counts last; sorted by fewest views, from
/// smallest to largest with the unknown counts first.
pub proof fn law_sorted_page_follows_view_counts(
    input: Seq<Video>,
    most: Seq<Video>,
    fewest: Seq<Video>,
)
    requires
        stably_sorted(SortOrder::ViewsDesc, input, most),
        stably_sorted(SortOrder::ViewsAsc, input, fewest),
    ensures
        forall|i: int, j: int|
            0 <= i < j < most.len() && #[trigger] views(most[i]) is Some && #[trigger] views(
                most[j],
            ) is Some ==> views(most[i])->0 >= views(most[j])->0,
        forall|i: int, j: int|
            0 <= i < j < most.len() && #[trigger] views(most[i]) is None ==> #[trigger] views(
                most[j],
            ) is None,
        forall|i: int, j: int|
            0 <= i < j < fewest.len() && #[trigger] views(fewest[i]) is Some && #[trigger] views(
                fewest[j],
            ) is Some ==> views(fewest[i])->0 <= views(fewest[j])->0,
        forall|i: int, j: int|
            0 <= i < j < fewest.len() && #[trigger] views(fewest[j]) is None ==> #[trigger] views(
                fewest[i],
            ) is None,
{
    let p = choose|perm: Seq<int>| stable_sort_by(SortOrder::ViewsDesc, input, most, perm);
    let q = choose|perm: Seq<int>| stable_sort_by(SortOrder::ViewsAsc, input, fewest, perm);
    assert forall|i: int, j: int| 0 <= i < j < most.len() implies sort_key(
        SortOrder::ViewsDesc,
        most[i],
    ) <= sort_key(SortOrder::ViewsDesc, most[j]) by {}
    assert forall|i: int, j: int| 0 <= i < j < fewest.len() implies sort_key(
        SortOrder::ViewsAsc,
        fewest[i],
    ) <= sort_key(SortOrder::ViewsAsc, fewest[j]) by {}
}

/// A page sorted longest first holds its lengths from longest to
/// shortest, an unknown length counting as zero seconds; sorted shortest
/// first, from shortest to longest, an unknown length counting as the
/// largest finite number of seconds.
pub proof fn law_sorted_page_follows_lengths(
    input: Seq<Video>,
    longest: Seq<Video>,
    shortest: Seq<Video>,
)
    requires
        stably_sorted(SortOrder::DurationDesc, input, longest),
        stably_sorted(SortOrder::DurationAsc, input, shortest),
    ensures
        forall|i: int, j: int|
            0 <= i < j < longest.len() ==> rank_or(#[trigger] longest[i], 0x8000_0000_0000_0000)
                >= rank_or(#[trigger] longest[j], 0x8000_0000_0000_0000),
        forall|i: int, j: int|
            0 <= i < j < shortest.len() ==> rank_or(#[trigger] shortest[i], 0xffef_ffff_ffff_ffff)
                <= rank_or(#[trigger] shortest[j], 0xffef_ffff_ffff_ffff),
{
    let p = choose|perm: Seq<int>| stable_sort_by(SortOrder::DurationDesc, input, longest, perm);
    let q = choose|perm: Seq<int>| stable_sort_by(SortOrder::DurationAsc, input, shortest, perm);
}

/// The value of a decimal digit character.
pub open spec fn digit_value(c: char) -> int {
    (c as int) - ('0' as int)
}

/// Whether every character of `t` is a decimal digit.
pub open spec fn all_digits(t: Seq<char>) -> bool {
    forall|i: int| 0 <= i < t.len() ==> '0' <= #[trigger] t[i] <= '9'
}

/// The number that the digits `t` write, most significant first.
pub open spec fn number_value(t: Seq<char>) -> int
    decreases t.len(),
{
    if t.len() == 0 {
        0
    } else {
        number_value(t.drop_last()) * 10 + digit_value(t.last())
    }
}

proof fn lemma_digit(d: int)
    requires
        0 <= d < 10,
    ensures
        digit_value(digit(d)) == d,
        '0' <= digit(d) <= '9',
{
}

/// `decimal(n)` is a non-empty string of digits that reads back as `n`.
proof fn lemma_decimal_reads_back(n: nat)
    ensures
        decimal(n).len() >= 1,
        all_digits(decimal(n)),
        number_value(decimal(n)) == n,
    decreases n,
{
    let t = decimal(n);
    if n < 10 {
        lemma_digit(n as int);
        assert(t.drop_last() =~= Seq::<char>::empty());
        assert(number_value(t.drop_last()) == 0);
        assert(t.last() == digit(n as int));
        assert(number_value(t) == number_value(t.drop_last()) * 10 + digit_value(t.last()));
    } else {
        lemma_decimal_reads_back(n / 10);
        lemma_digit((n % 10) as int);
        assert(t.drop_last() =~= decimal(n / 10));
        assert(t.last() == digit((n % 10) as int));
        assert(number_value(t) == number_value(t.drop_last()) * 10 + digit_value(t.last()));
        assert(number_value(t) == (n / 10) * 10 + n % 10);
        assert forall|i: int| 0 <= i < t.len() implies '0' <= #[trigger] t[i] <= '9' by {
            if i < t.len() - 1 {
                assert(t[i] == decimal(n / 10)[i]);
            }
        }
    }
}

/// `two_digits(n)` is two digits that read back as `n`.
proof fn lemma_two_digits_read_back(n: nat)
    requires
        n < 100,
    ensures
        two_digits(n).len() == 2,
        all_digits(two_digits(n)),
        number_value(two_digits(n)) == n,
{
    lemma_decimal_reads_back(n);
    if n < 10 {
        let t = two_digits(n);
        lemma_digit(n as int);
        assert(decimal(n) == seq![digit(n as int)]);
        assert(t =~= seq!['0', digit(n as int)]);
        assert(t.drop_last() =~= seq!['0']);
        assert(seq!['0'].drop_last() =~= Seq::<char>::empty());
        assert(number_value(seq!['0'].drop_last()) == 0);
        assert(number_value(seq!['0']) == 0);
        assert(number_value(t) == number_value(t.drop_last()) * 10 + digit_value(t.last()));
    } else {
        lemma_decimal_reads_back(n / 10);
        assert(decimal(n / 10) == seq![digit((n / 10) as int)]);
    }
}

/// The search term is `ytsearch`, a number, `:` and the query; the
/// number reads back as `(page + 1) * 10`, so the results asked for
/// reach the end of the page; and with exactly that many results the
/// page's window holds the last ten of them.
pub proof fn law_search_term_reaches_end_of_page(query: Seq<char>, page: int, all: Seq<Video>)
    requires
        0 <= page,
    ensures
        ({
            let t = search_term_text(query, page);
            let n = t.len() - query.len() - 1;
            &&& 8 < n
            &&& t.subrange(0, 8) == "ytsearch"@
            &&& all_digits(t.subrange(8, n))
            &&& number_value(t.subrange(8, n)) == (page + 1) * 10
            &&& t[n] == ':'
            &&& t.subrange(n + 1, t.len() as int) == query
        }),
        all.len() == (page + 1) * 10 ==> page_window(all, page) == all.subrange(
            page * 10,
            (page + 1) * 10,
        ),
{
    reveal_strlit("ytsearch");
    let d = decimal(((page + 1) * 10) as nat);
    lemma_decimal_reads_back(((page + 1) * 10) as nat);
    let t = search_term_text(query, page);
    assert(t =~= "ytsearch"@ + d + seq![':'] + query);
    let n = t.len() - query.len() - 1;
    assert(t.subrange(0, 8) =~= "ytsearch"@);
    assert(t.subrange(8, n) =~= d);
    assert(t.subrange(n + 1, t.len() as int) =~= query);
}

/// On the result list, `p` asks for exactly the page before the one on
/// screen, leaving the screen as it is, and on the first page says so;
/// `n` asks for exactly the page after it, leaving the page, results
/// and fetched pages as they are.
pub proof fn law_paging_keys(
    old: AppView,
    prev_state: AppView,
    prev_cmd: Command,
    next_state: AppView,
    next_cmd: Command,
)
    requires
        old.input_mode == InputMode::Normal,
        key_step(old, Key::Char('p'), prev_state, prev_cmd),
        key_step(old, Key::Char('n'), next_state, next_cmd),
    ensures
        old.page > 0 ==> prev_cmd == (Command::Load {
            page: (old.page - 1) as usize,
            purpose: LoadPurpose::Prev,
        }) && prev_state == old,
        old.page == 0 ==> prev_cmd is Nothing && prev_state.page == 0 && prev_state.videos
            == old.videos && prev_state.message == "Already on first page."@,
        old.page < usize::MAX ==> next_cmd == (Command::Load {
            page: (old.page + 1) as usize,
            purpose: LoadPurpose::Next,
        }),
        next_state.page == old.page,
        next_state.videos == old.videos,
        next_state.cache == old.cache,
{
}

/// The selected video is the one on the highlighted row, none when no
/// row of the list is highlighted; Enter on the result list plays the
/// highlighted video from its address and says so.
pub proof fn law_highlighted_video_is_played(s: AppView, i: usize, new: AppView, cmd: Command)
    requires
        s.input_mode == InputMode::Normal,
        key_step(s, Key::Enter, new, cmd),
    ensures
        s.selected == Some(i) && i < s.videos.len() ==> selected_of(s) == Some(s.videos[i as int]),
        s.selected is None || s.selected->0 >= s.videos.len() ==> selected_of(s) is None
            && cmd is Nothing && new == s,
        s.selected == Some(i) && i < s.videos.len() && playback_url_of(s.videos[i as int]).len()
            > 0 ==> (cmd matches Command::Play { url } && url@ == playback_url_of(
            s.videos[i as int],
        )) && new.message == "Playing: "@ + title_text(s.videos[i as int]),
{
}

/// Whether `t` reads as a clock time of `secs` seconds: `m:ss` under an
/// hour, `h:mm:ss` from an hour on, each field in decimal digits,
/// minutes and seconds below 60 and at least one hour in the hours.
pub open spec fn reads_as_clock(t: Seq<char>, secs: int) -> bool {
    let n = t.len() as int;
    let ss = t.subrange(n - 2, n);
    &&& n >= 4
    &&& t[n - 3] == ':'
    &&& all_digits(ss)
    &&& number_value(ss) < 60
    &&& if secs >= 3600 {
        let hh = t.subrange(0, n - 6);
        let mm = t.subrange(n - 5, n - 3);
        &&& n >= 7
        &&& t[n - 6] == ':'
        &&& all_digits(hh) && all_digits(mm)
        &&& number_value(mm) < 60
        &&& number_value(hh) >= 1
        &&& number_value(hh) * 3600 + number_value(mm) * 60 + number_value(ss) == secs
    } else {
        let mm = t.subrange(0, n - 3);
        &&& all_digits(mm)
        &&& number_value(mm) < 60
        &&& number_value(mm) * 60 + number_value(ss) == secs
    }
}

/// The shown length reads back as the length: its hours, minutes and
/// seconds make up the whole seconds.
pub proof fn law_clock_text_reads_back(secs: u64)
    ensures
        reads_as_clock(clock_text(secs), secs as int),
{
    let h = secs / 3600;
    let m = (secs % 3600) / 60;
    let sec = secs % 60;
    lemma_two_digits_read_back(m as nat);
    lemma_two_digits_read_back(sec as nat);
    lemma_decimal_reads_back(h as nat);
    lemma_decimal_reads_back(m as nat);
    assert(h * 3600 + m * 60 + sec == secs);
    let t = clock_text(secs);
    let n = t.len() as int;
    if h > 0 {
        assert(t =~= decimal(h as nat) + seq![':'] + two_digits(m as nat) + seq![':'] + two_digits(
            sec as nat,
        ));
        assert(t.subrange(n - 2, n) =~= two_digits(sec as nat));
        assert(t.subrange(n - 5, n - 3) =~= two_digits(m as nat));
        assert(t.subrange(0, n - 6) =~= decimal(h as nat));
    } else {
        assert(t =~= decimal(m as nat) + seq![':'] + two_digits(sec as nat));
        assert(t.subrange(n - 2, n) =~= two_digits(sec as nat));
        assert(t.subrange(0, n - 3) =~= decimal(m as nat));
    }
}


/// The label before a row is a space, padding to a column two wide, the
/// row's number in digits and `". "`; the number reads back as the row's
/// position in all the results, counted from one.
pub proof fn law_row_label_reads_back(index: int, page: int)
    requires
        0 <= index,
        0 <= page,
    ensures
        ({
            let t = row_label_text(index, page);
            let n = t.len() as int;
            let num = index + 1 + page * 10;
            let digits = if num < 10 {
                t.subrange(2, n - 2)
            } else {
                t.subrange(1, n - 2)
            };
            &&& n >= 5
            &&& t[0] == ' '
            &&& (num < 10 ==> t[1] == ' ' && n == 5)
            &&& t[n - 2] == '.' && t[n - 1] == ' '
            &&& all_digits(digits)
            &&& number_value(digits) == num
        }),
{
    reveal_strlit(". ");
    let num = index + 1 + page * 10;
    lemma_decimal_reads_back(num as nat);
    let t = row_label_text(index, page);
    let n = t.len() as int;
    let d = decimal(num as nat);
    assert(row_number(index, page) == num);
    if num < 10 {
        assert(d == seq![digit(num)]);
        assert(t =~= seq![' ', ' '] + d + ". "@);
        assert(n == 5);
        assert(t[0] == ' ' && t[1] == ' ');
        assert(t[n - 2] == '.' && t[n - 1] == ' ');
        assert(t.subrange(2, n - 2) =~= d);
    } else {
        lemma_decimal_reads_back((num / 10) as nat);
        assert(d.len() == decimal((num / 10) as nat).len() + 1);
        assert(t =~= seq![' '] + d + ". "@);
        assert(t[0] == ' ');
        assert(t[n - 2] == '.' && t[n - 1] == ' ');
        assert(t.subrange(1, n - 2) =~= d);
    }
}

/// View counts are shown as they are below a thousand, and otherwise
/// scaled by the largest of a thousand, a million and a billion that they
/// reach, with the letter of that unit; the count itself is kept.
pub proof fn law_view_count_scale(n: u64)
    ensures
        n < 1000 <==> view_count_class(Some(n)) == ViewCount::Plain(n),
        view_count_class(None) == ViewCount::Unknown,
        view_count_class(Some(n)) matches ViewCount::Scaled { count, unit, suffix } ==> {
            &&& count == n
            &&& unit <= n
            &&& (unit == 1_000 && suffix == 'K' && n < 1_000_000 || unit == 1_000_000 && suffix
                == 'M' && n < 1_000_000_000 || unit == 1_000_000_000 && suffix == 'B')
        },
        n >= 1000 ==> view_count_class(Some(n)) is Scaled,
{
}

/// The help pop-up lies inside the screen, at most 60 by 15, four less
/// than the screen each way on a small screen, and centred: the margin
/// on the right (bottom) is the one on the left (top) or one more.
pub proof fn law_help_popup_fits(width: int, height: int)
    requires
        0 <= width,
        0 <= height,
    ensures
        ({
            let (x, y, w, h) = help_area(width, height);
            &&& 0 <= w <= 60 && 0 <= h <= 15
            &&& (width >= 64 ==> w == 60) && (height >= 19 ==> h == 15)
            &&& (4 <= width < 64 ==> w == width - 4) && (4 <= height < 19 ==> h == height - 4)
            &&& (width < 4 ==> w == 0) && (height < 4 ==> h == 0)
            &&& 0 <= x && x + w <= width && 0 <= y && y + h <= height
            &&& (width - (x + w) == x || width - (x + w) == x + 1)
            &&& (height - (y + h) == y || height - (y + h) == y + 1)
        }),
{
}

/// Moving the highlight goes exactly one row down or up, stopping at the
/// last and the first row; with no row highlighted it goes to the first
/// row; on an empty list nothing moves.
pub proof fn law_highlight_moves_one_row(selected: Option<usize>, len: int)
    requires
        0 <= len <= usize::MAX,
    ensures
        len == 0 ==> next_selection(selected, len) == selected && prev_selection(selected, len)
            == selected,
        len > 0 && selected is None ==> next_selection(selected, len) == Some(0usize)
            && prev_selection(selected, len) == Some(0usize),
        len > 0 && selected is Some && selected->0 + 1 < len ==> next_selection(selected, len)
            == Some((selected->0 + 1) as usize),
        len > 0 && selected is Some && selected->0 + 1 >= len ==> next_selection(selected, len)
            == Some((len - 1) as usize),
        len > 0 && selected is Some && selected->0 > 0 ==> prev_selection(selected, len) == Some(
            (selected->0 - 1) as usize,
        ),
        len > 0 && selected == Some(0usize) ==> prev_selection(selected, len) == Some(0usize),
{
}

/// On the search line, typing a character other than `?` adds it to the
/// end of the line, and backspace takes it off again; nothing else
/// changes.
pub proof fn law_typing_then_backspace(
    s0: AppView,
    c: char,
    s1: AppView,
    cmd1: Command,
    s2: AppView,
    cmd2: Command,
)
    requires
        s0.input_mode == InputMode::Search,
        c != '?',
        key_step(s0, Key::Char(c), s1, cmd1),
        key_step(s1, Key::Backspace, s2, cmd2),
    ensures
        s1.input_buf == s0.input_buf.push(c),
        s1.input_buf.len() == s0.input_buf.len() + 1,
        s2 == s0,
        cmd1 is Nothing,
        cmd2 is Nothing,
{
    assert(s0.input_buf.push(c).drop_last() =~= s0.input_buf);
    assert(s2 =~= s0);
}

/// In the help pop-up any key closes it, back to the search line when no
/// query has been run and to the result list otherwise; nothing else
/// changes and nothing is asked of the caller.
pub proof fn law_help_closes_on_any_key(s0: AppView, key: Key, s1: AppView, cmd: Command)
    requires
        s0.input_mode == InputMode::Help,
        key_step(s0, key, s1, cmd),
    ensures
        s1.input_mode == (if s0.query.len() == 0 {
            InputMode::Search
        } else {
            InputMode::Normal
        }),
        s1.query == s0.query && s1.input_buf == s0.input_buf && s1.videos == s0.videos,
        s1.page == s0.page && s1.selected == s0.selected && s1.message == s0.message,
        s1.cache == s0.cache && s1.sort_order == s0.sort_order,
        s1.should_quit == s0.should_quit,
        cmd is Nothing,
{
}

/// The `k`-th result of a page is result `page * 10 + k` of all the
/// results fetched up to its end.
pub proof fn law_page_holds_its_results(all: Seq<Video>, page: int, k: int)
    requires
        0 <= page,
        0 <= k < page_window(all, page).len(),
    ensures
        page * 10 + k < all.len(),
        page_window(all, page)[k] == all[page * 10 + k],
{
}

/// Every record line of the search tool's output holds something other
/// than whitespace and no line feed.
pub proof fn law_record_lines_are_single_nonblank_lines(s: Seq<char>, i: int)
    requires
        0 <= i,
    ensures
        forall|k: int|
            0 <= k < record_lines(s, i).len() ==> trim(#[trigger] record_lines(s, i)[k]).len()
                > 0 && !record_lines(s, i)[k].contains('\n'),
    decreases s.len() + 1 - i,
{
    if i < s.len() {
        let e = line_end(s, i);
        lemma_line_end_bounds(s, i);
        lemma_record_lines_rest(s, i);
        law_record_lines_are_single_nonblank_lines(s, e + 1);
        let line = line_text(s, i, e);
        assert(!line.contains('\n')) by {
            if line.contains('\n') {
                let j = choose|j: int| 0 <= j < line.len() && line[j] == '\n';
                if e < s.len() {
                    assert(line[j] == s.subrange(i, e)[j]);
                } else {
                    assert(line[j] == s[i + j]);
                }
            }
        }
        let rest = record_lines(s, e + 1);
        if trim(line).len() > 0 {
            assert forall|k: int| 0 <= k < record_lines(s, i).len() implies trim(
                #[trigger] record_lines(s, i)[k],
            ).len() > 0 && !record_lines(s, i)[k].contains('\n') by {
                if k > 0 {
                    assert(record_lines(s, i)[k] == rest[k - 1]);
                }
            }
        }
    }
}

/// One step of `record_lines`.
proof fn lemma_record_lines_rest(s: Seq<char>, i: int)
    requires
        0 <= i < s.len(),
    ensures
        record_lines(s, i) == if trim(line_text(s, i, line_end(s, i))).len() > 0 {
            seq![line_text(s, i, line_end(s, i))] + record_lines(s, line_end(s, i) + 1)
        } else {
            record_lines(s, line_end(s, i) + 1)
        },
{
}


/// The address a video is played from: its page address when the feed
/// gives one; else the watch page of its id; else its `url` when that
/// starts with `http`, or the watch page of `url` otherwise; else nothing.
pub proof fn law_playback_address(v: Video)
    ensures
        v.webpage_url is Some ==> playback_url_of(v) == v.webpage_url->0@,
        v.webpage_url is None && v.id is Some ==> playback_url_of(v)
            == "https://www.youtube.com/watch?v="@ + v.id->0@,
        v.webpage_url is None && v.id is None && v.url is Some && v.url->0@.len() >= 4
            && v.url->0@.subrange(0, 4) == "http"@ ==> playback_url_of(v) == v.url->0@,
        v.webpage_url is None && v.id is None && v.url is Some && !(v.url->0@.len() >= 4
            && v.url->0@.subrange(0, 4) == "http"@) ==> playback_url_of(v)
            == "https://www.youtube.com/watch?v="@ + v.url->0@,
        v.webpage_url is None && v.id is None && v.url is None ==> playback_url_of(v).len() == 0,
{
    reveal_strlit("http");
}

} // verus!
