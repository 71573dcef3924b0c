use mpv_yt::screen::{help_popup_area, row_label, truncate_str};
use mpv_yt::search::{result_lines, search_term, take_page};
use mpv_yt::video::{Length, Video, ViewCount};

fn blank() -> Video {
    Video {
        title: None,
        channel: None,
        duration: None,
        view_count: None,
        url: None,
        id: None,
        webpage_url: None,
        upload_date: None,
    }
}

#[test]
fn unknown_fields_have_placeholders() {
    let v = blank();
    assert_eq!(v.display_title(), "Unknown Title");
    assert_eq!(v.display_channel(), "Unknown");
    assert_eq!(v.display_duration(), "??:??");
    assert_eq!(v.view_count_display(), ViewCount::Unknown);
    assert_eq!(v.view_count_display().plain_text(), Some("? views".to_string()));
    assert_eq!(v.playback_url(), "");
}

#[test]
fn known_title_and_channel_are_shown() {
    let mut v = blank();
    v.title = Some("Intro".to_string());
    v.channel = Some("Chan".to_string());
    assert_eq!(v.display_title(), "Intro");
    assert_eq!(v.display_channel(), "Chan");
}

#[test]
fn durations_are_clock_times() {
    let mut v = blank();
    v.duration = Some(Length { whole_secs: 3_725, rank: 0 });
    assert_eq!(v.display_duration(), "1:02:05");
    v.duration = Some(Length { whole_secs: 65, rank: 0 });
    assert_eq!(v.display_duration(), "1:05");
    v.duration = Some(Length { whole_secs: 9, rank: 0 });
    assert_eq!(v.display_duration(), "0:09");
    v.duration = Some(Length { whole_secs: 0, rank: 0 });
    assert_eq!(v.display_duration(), "0:00");
    v.duration = Some(Length { whole_secs: 36_000 + 59 * 60, rank: 0 });
    assert_eq!(v.display_duration(), "10:59:00");
}

#[test]
fn view_counts_are_classed_by_size() {
    let mut v = blank();
    v.view_count = Some(999);
    assert_eq!(v.view_count_display(), ViewCount::Plain(999));
    assert_eq!(v.view_count_display().plain_text(), Some("999 views".to_string()));
    v.view_count = Some(1_000);
    assert_eq!(v.view_count_display(), ViewCount::Scaled { count: 1_000, unit: 1_000, suffix: 'K' });
    assert_eq!(v.view_count_display().plain_text(), None);
    v.view_count = Some(2_500_000);
    assert_eq!(
        v.view_count_display(),
        ViewCount::Scaled { count: 2_500_000, unit: 1_000_000, suffix: 'M' }
    );
    v.view_count = Some(7_000_000_000);
    assert_eq!(
        v.view_count_display(),
        ViewCount::Scaled { count: 7_000_000_000, unit: 1_000_000_000, suffix: 'B' }
    );
    v.view_count = Some(0);
    assert_eq!(v.view_count_display().plain_text(), Some("0 views".to_string()));
}

#[test]
fn playback_url_prefers_page_then_id_then_url() {
    let mut v = blank();
    v.url = Some("abc".to_string());
    assert_eq!(v.playback_url(), "https://www.youtube.com/watch?v=abc");
    v.url = Some("https://example.org/v".to_string());
    assert_eq!(v.playback_url(), "https://example.org/v");
    v.id = Some("XYZ".to_string());
    assert_eq!(v.playback_url(), "https://www.youtube.com/watch?v=XYZ");
    v.webpage_url = Some("https://www.youtube.com/watch?v=W".to_string());
    assert_eq!(v.playback_url(), "https://www.youtube.com/watch?v=W");
}

#[test]
fn truncation_of_long_titles() {
    assert_eq!(truncate_str("short", 55), "short");
    assert_eq!(truncate_str("abcdef", 6), "abcdef");
    assert_eq!(truncate_str("abcdefg", 6), "abcde...");
    assert_eq!(truncate_str("héllo wörld", 5), "héll...");
    assert_eq!(truncate_str("", 0), "");
    let long: String = std::iter::repeat('x').take(60).collect();
    let t = truncate_str(&long, 55);
    assert_eq!(t.chars().count(), 57);
    assert!(t.ends_with("..."));
}

#[test]
fn row_labels_count_across_pages() {
    assert_eq!(row_label(0, 0), "  1. ");
    assert_eq!(row_label(8, 0), "  9. ");
    assert_eq!(row_label(9, 0), " 10. ");
    assert_eq!(row_label(0, 1), " 11. ");
    assert_eq!(row_label(9, 9), " 100. ");
}

#[test]
fn help_popup_is_centred() {
    assert_eq!(help_popup_area(100, 40), (20, 12, 60, 15));
    assert_eq!(help_popup_area(30, 10), (2, 2, 26, 6));
    assert_eq!(help_popup_area(3, 2), (1, 1, 0, 0));
    assert_eq!(help_popup_area(64, 19), (2, 2, 60, 15));
}

#[test]
fn search_terms_reach_the_end_of_the_page() {
    assert_eq!(search_term("cats", 0), "ytsearch10:cats");
    assert_eq!(search_term("rust tutorial", 2), "ytsearch30:rust tutorial");
}

fn numbered(n: u64) -> Vec<Video> {
    (0..n)
        .map(|i| {
            let mut v = blank();
            v.view_count = Some(i);
            v
        })
        .collect()
}

#[test]
fn a_page_is_a_window_of_ten() {
    let p = take_page(numbered(25), 2);
    assert_eq!(p.iter().map(|v| v.view_count.unwrap()).collect::<Vec<_>>(), vec![20, 21, 22, 23, 24]);
    let p = take_page(numbered(25), 1);
    assert_eq!(p.len(), 10);
    assert_eq!(p[0].view_count, Some(10));
    assert!(take_page(numbered(25), 3).is_empty());
    assert!(take_page(Vec::new(), 0).is_empty());
}

#[test]
fn records_are_the_non_blank_lines() {
    assert_eq!(result_lines("a\r\n\n  \t\nb\n"), vec!["a".to_string(), "b".to_string()]);
    assert_eq!(result_lines("{\"id\":1}\r\nx\r"), vec!["{\"id\":1}".to_string(), "x\r".to_string()]);
    assert!(result_lines("").is_empty());
    assert!(result_lines("\n\n \r\n").is_empty());
    assert_eq!(result_lines("  one  \n"), vec!["  one  ".to_string()]);
}
