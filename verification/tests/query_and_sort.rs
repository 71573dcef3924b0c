use mpv_yt::query::{parse_query_and_sort, SortOrder};
use mpv_yt::sort::sort_videos;
use mpv_yt::video::{Length, Video, MAX_SECS_RANK, ZERO_SECS_RANK};

/// A length of `secs` seconds, ranked by the bits of the float.
fn len(secs: f64) -> Length {
    let secs = if secs == 0.0 { 0.0 } else { secs };
    let bits = secs.to_bits();
    let rank = if bits >> 63 == 1 { !bits } else { bits | (1 << 63) };
    Length { whole_secs: secs as u64, rank }
}

fn vid(name: &str, views: Option<u64>, secs: Option<f64>) -> Video {
    Video {
        title: Some(name.to_string()),
        channel: None,
        duration: secs.map(len),
        view_count: views,
        url: None,
        id: None,
        webpage_url: None,
        upload_date: None,
    }
}

fn titles(v: &[Video]) -> Vec<String> {
    v.iter().map(|x| x.title.clone().unwrap()).collect()
}

#[test]
fn help_example_sorts_by_views() {
    let (q, o) = parse_query_and_sort("rust tutorial --sort-by-views");
    assert_eq!(q, "rust tutorial");
    assert_eq!(o, SortOrder::ViewsDesc);
}

#[test]
fn plain_query_is_trimmed_with_default_order() {
    let (q, o) = parse_query_and_sort("   cats and dogs \t ");
    assert_eq!(q, "cats and dogs");
    assert_eq!(o, SortOrder::Default);
}

#[test]
fn unicode_whitespace_is_trimmed() {
    let (q, o) = parse_query_and_sort("\u{3000}q\u{00a0}");
    assert_eq!(q, "q");
    assert_eq!(o, SortOrder::Default);
}

#[test]
fn flag_in_the_middle_joins_the_parts() {
    let (q, o) = parse_query_and_sort("lofi   --sort-by-views-asc   beats");
    assert_eq!(q, "lofi beats");
    assert_eq!(o, SortOrder::ViewsAsc);
}

#[test]
fn flag_alone_gives_empty_query() {
    let (q, o) = parse_query_and_sort("--longest");
    assert_eq!(q, "");
    assert_eq!(o, SortOrder::DurationDesc);
}

#[test]
fn flag_first_keeps_text_after() {
    let (q, o) = parse_query_and_sort("--shortest  news");
    assert_eq!(q, "news");
    assert_eq!(o, SortOrder::DurationAsc);
}

#[test]
fn longer_flags_win_over_their_prefix() {
    assert_eq!(parse_query_and_sort("a --sort-by-duration-asc").1, SortOrder::DurationAsc);
    assert_eq!(parse_query_and_sort("a --sort-by-duration-desc").1, SortOrder::DurationDesc);
    assert_eq!(parse_query_and_sort("a --sort-by-duration").1, SortOrder::DurationDesc);
    assert_eq!(parse_query_and_sort("a --sort-by-views-desc").1, SortOrder::ViewsDesc);
    assert_eq!(parse_query_and_sort("a --most-viewed").1, SortOrder::ViewsDesc);
    assert_eq!(parse_query_and_sort("a --least-viewed").1, SortOrder::ViewsAsc);
}

#[test]
fn only_the_first_flag_in_table_order_is_removed() {
    let (q, o) = parse_query_and_sort("x --shortest --longest");
    assert_eq!(q, "x --shortest");
    assert_eq!(o, SortOrder::DurationDesc);
}

#[test]
fn labels_of_sort_orders() {
    assert_eq!(SortOrder::Default.label(), "default");
    assert_eq!(SortOrder::ViewsDesc.label(), "most views");
    assert_eq!(SortOrder::ViewsAsc.label(), "least views");
    assert_eq!(SortOrder::DurationDesc.label(), "longest");
    assert_eq!(SortOrder::DurationAsc.label(), "shortest");
}

#[test]
fn sort_by_views_desc_puts_unknown_last() {
    let mut v = vec![
        vid("a", Some(5), None),
        vid("b", None, None),
        vid("c", Some(50), None),
        vid("d", Some(0), None),
    ];
    sort_videos(&mut v, &SortOrder::ViewsDesc);
    assert_eq!(titles(&v), vec!["c", "a", "d", "b"]);
}

#[test]
fn sort_by_views_asc_puts_unknown_first() {
    let mut v = vec![
        vid("a", Some(5), None),
        vid("b", None, None),
        vid("c", Some(50), None),
        vid("d", Some(0), None),
    ];
    sort_videos(&mut v, &SortOrder::ViewsAsc);
    assert_eq!(titles(&v), vec!["b", "d", "a", "c"]);
}

#[test]
fn sort_by_duration_desc_counts_unknown_as_zero() {
    let mut v = vec![
        vid("a", None, None),
        vid("b", None, Some(0.0)),
        vid("c", None, Some(90.0)),
        vid("d", None, Some(30.5)),
    ];
    sort_videos(&mut v, &SortOrder::DurationDesc);
    assert_eq!(titles(&v), vec!["c", "d", "a", "b"]);
}

#[test]
fn sort_by_duration_asc_puts_unknown_last() {
    let mut v = vec![
        vid("a", None, None),
        vid("b", None, Some(10.0)),
        vid("c", None, Some(5.0)),
    ];
    sort_videos(&mut v, &SortOrder::DurationAsc);
    assert_eq!(titles(&v), vec!["c", "b", "a"]);
}

#[test]
fn sort_is_stable() {
    let mut v = vec![
        vid("a", Some(1), None),
        vid("b", Some(2), None),
        vid("c", Some(1), None),
        vid("d", Some(2), None),
        vid("e", Some(1), None),
    ];
    sort_videos(&mut v, &SortOrder::ViewsDesc);
    assert_eq!(titles(&v), vec!["b", "d", "a", "c", "e"]);
}

#[test]
fn default_order_leaves_list_alone() {
    let mut v = vec![vid("z", Some(1), None), vid("a", Some(9), None)];
    sort_videos(&mut v, &SortOrder::Default);
    assert_eq!(titles(&v), vec!["z", "a"]);
}

#[test]
fn sorting_twice_is_sorting_once() {
    let mut v = vec![
        vid("a", Some(3), None),
        vid("b", Some(1), None),
        vid("c", Some(3), None),
        vid("d", Some(2), None),
    ];
    sort_videos(&mut v, &SortOrder::ViewsAsc);
    let once = titles(&v);
    sort_videos(&mut v, &SortOrder::ViewsAsc);
    assert_eq!(titles(&v), once);
    assert_eq!(once, vec!["b", "d", "a", "c"]);
}

#[test]
fn sorting_empty_list_is_fine() {
    let mut v: Vec<Video> = Vec::new();
    sort_videos(&mut v, &SortOrder::DurationAsc);
    assert!(v.is_empty());
}

#[test]
fn every_flag_before_or_after_the_query_selects_its_order() {
    let table = [
        ("--sort-by-views-desc", SortOrder::ViewsDesc),
        ("--sort-by-views-asc", SortOrder::ViewsAsc),
        ("--sort-by-views", SortOrder::ViewsDesc),
        ("--sort-by-duration-desc", SortOrder::DurationDesc),
        ("--sort-by-duration-asc", SortOrder::DurationAsc),
        ("--sort-by-duration", SortOrder::DurationDesc),
        ("--most-viewed", SortOrder::ViewsDesc),
        ("--least-viewed", SortOrder::ViewsAsc),
        ("--longest", SortOrder::DurationDesc),
        ("--shortest", SortOrder::DurationAsc),
    ];
    for q in ["  jazz  piano ", "", "x -", "\t"] {
        for (f, o) in table {
            let after = parse_query_and_sort(&format!("{q} {f}"));
            assert_eq!(after, (q.trim().to_string(), o.clone()), "{q:?} then {f}");
            let before = parse_query_and_sort(&format!("{f} {q}"));
            assert_eq!(before, (q.trim().to_string(), o), "{f} then {q:?}");
        }
    }
}

#[test]
fn ranks_of_the_fill_in_lengths() {
    assert_eq!(len(0.0).rank, ZERO_SECS_RANK);
    assert_eq!(len(-0.0).rank, ZERO_SECS_RANK);
    assert_eq!(len(f64::MAX).rank, MAX_SECS_RANK);
}

#[test]
fn lengths_sort_as_their_seconds_compare() {
    let mut v = vec![
        vid("a", None, Some(10.0002)),
        vid("b", None, Some(10.0001)),
        vid("c", None, Some(-3.0)),
        vid("d", None, None),
        vid("e", None, Some(10.0001)),
    ];
    sort_videos(&mut v, &SortOrder::DurationAsc);
    assert_eq!(titles(&v), vec!["c", "b", "e", "a", "d"]);
    sort_videos(&mut v, &SortOrder::DurationDesc);
    assert_eq!(titles(&v), vec!["a", "b", "e", "d", "c"]);
}
