use mpv_yt::app::{App, Command, InputMode, Key, LoadPurpose};
use mpv_yt::query::SortOrder;
use mpv_yt::video::Video;

fn vid(name: &str, views: u64) -> Video {
    Video {
        title: Some(name.to_string()),
        channel: None,
        duration: None,
        view_count: Some(views),
        url: None,
        id: Some(format!("id-{name}")),
        webpage_url: None,
        upload_date: None,
    }
}

fn titles(app: &App) -> Vec<String> {
    app.videos.iter().map(|v| v.title.clone().unwrap()).collect()
}

fn type_line(app: &mut App, s: &str) {
    for c in s.chars() {
        assert!(matches!(app.handle_key(Key::Char(c)), Command::Nothing));
    }
}

fn searched(line: &str) -> App {
    let mut app = App::new();
    type_line(&mut app, line);
    match app.handle_key(Key::Enter) {
        Command::Load { page: 0, purpose: LoadPurpose::NewSearch } => {}
        other => panic!("unexpected {other:?}"),
    }
    app
}

#[test]
fn new_session_waits_for_a_query() {
    let app = App::new();
    assert_eq!(app.input_mode, InputMode::Search);
    assert_eq!(app.message, "Type a search query and press Enter (? for help)");
    assert_eq!(app.header_text(), " Search: |");
    assert_eq!(app.footer_text(), " Enter: search | Esc: cancel | ?: filter help ");
    assert!(!app.should_quit);
}

#[test]
fn typing_and_backspace_edit_the_line() {
    let mut app = App::new();
    type_line(&mut app, "cats");
    app.handle_key(Key::Backspace);
    assert_eq!(app.input_buf, "cat");
    assert_eq!(app.header_text(), " Search: cat|");
    let mut empty = App::new();
    empty.handle_key(Key::Backspace);
    assert_eq!(empty.input_buf, "");
}

#[test]
fn blank_line_is_not_searched() {
    let mut app = App::new();
    type_line(&mut app, "   ");
    assert!(matches!(app.handle_key(Key::Enter), Command::Nothing));
    assert_eq!(app.input_mode, InputMode::Search);
    assert_eq!(app.input_buf, "   ");
}

#[test]
fn enter_runs_the_search_line() {
    let app = searched(" rust tutorial --sort-by-views ");
    assert_eq!(app.query, "rust tutorial");
    assert_eq!(app.sort_order, SortOrder::ViewsDesc);
    assert_eq!(app.input_buf, "");
    assert_eq!(app.page, 0);
    assert_eq!(app.input_mode, InputMode::Normal);
    assert_eq!(app.message, "Searching \"rust tutorial\" (page 1)...");
    assert_eq!(app.header_text(), " \"rust tutorial\"  --  Page 1 [sorted: most views]");
    assert_eq!(app.sort_label(), " [sorted: most views]");
}

#[test]
fn fetched_page_is_sorted_kept_and_reused() {
    let mut app = searched("music --most-viewed");
    assert!(app.store_fetched_page(0, vec![vid("a", 1), vid("b", 30), vid("c", 7)]));
    assert_eq!(titles(&app), vec!["b", "c", "a"]);
    assert_eq!(app.selected, Some(0));
    assert_eq!(app.message, "Page 1 -- 3 results");
    app.videos.clear();
    app.selected = None;
    assert_eq!(app.load_cached_page(0), Some(true));
    assert_eq!(titles(&app), vec!["b", "c", "a"]);
    assert_eq!(app.selected, Some(0));
    assert_eq!(app.message, "Page 1 -- 3 results (cached)");
    assert_eq!(app.load_cached_page(1), None);
}

#[test]
fn empty_fetch_changes_nothing() {
    let mut app = searched("nothing");
    assert!(!app.store_fetched_page(0, Vec::new()));
    assert_eq!(app.message, "Searching \"nothing\" (page 1)...");
    assert_eq!(app.load_cached_page(0), None);
}

#[test]
fn new_search_forgets_fetched_pages() {
    let mut app = searched("first");
    app.store_fetched_page(0, vec![vid("a", 1)]);
    app.handle_key(Key::Char('/'));
    assert_eq!(app.input_mode, InputMode::Search);
    type_line(&mut app, "second");
    app.handle_key(Key::Enter);
    assert_eq!(app.load_cached_page(0), None);
    assert_eq!(app.query, "second");
}

#[test]
fn load_outcomes_set_the_status_line() {
    let mut app = searched("q");
    app.store_fetched_page(0, vec![vid("a", 1)]);
    app.finish_load(LoadPurpose::NewSearch, Ok(false));
    assert_eq!(app.message, "No results found.");
    assert!(app.videos.is_empty());
    assert_eq!(app.selected, None);

    let mut app = searched("q");
    app.store_fetched_page(0, vec![vid("a", 1)]);
    app.finish_load(LoadPurpose::NewSearch, Err("boom".to_string()));
    assert_eq!(app.message, "Error: boom");
    assert!(app.videos.is_empty());
    assert_eq!(app.selected, Some(0));

    let mut app = searched("q");
    app.store_fetched_page(0, vec![vid("a", 1)]);
    app.finish_load(LoadPurpose::Next, Ok(false));
    assert_eq!(app.message, "No more results.");
    assert_eq!(titles(&app), vec!["a"]);
    app.finish_load(LoadPurpose::Prev, Err("e".to_string()));
    assert_eq!(app.message, "Error: e");
    app.finish_load(LoadPurpose::Next, Ok(true));
    assert_eq!(app.message, "Error: e");
}

#[test]
fn next_and_previous_pages() {
    let mut app = searched("q");
    app.store_fetched_page(0, vec![vid("a", 1)]);
    match app.handle_key(Key::Char('n')) {
        Command::Load { page: 1, purpose: LoadPurpose::Next } => {}
        other => panic!("unexpected {other:?}"),
    }
    assert_eq!(app.message, "Searching \"q\" (page 1)...");
    assert!(matches!(app.handle_key(Key::Char('p')), Command::Nothing));
    assert_eq!(app.message, "Already on first page.");
    app.store_fetched_page(1, vec![vid("b", 1)]);
    assert_eq!(app.page, 1);
    assert_eq!(app.message, "Page 2 -- 1 results");
    match app.handle_key(Key::Char('p')) {
        Command::Load { page: 0, purpose: LoadPurpose::Prev } => {}
        other => panic!("unexpected {other:?}"),
    }
    assert_eq!(app.load_cached_page(0), Some(true));
    assert_eq!(titles(&app), vec!["a"]);
}

#[test]
fn highlight_moves_within_the_list() {
    let mut app = searched("q");
    app.store_fetched_page(0, vec![vid("a", 3), vid("b", 2), vid("c", 1)]);
    app.handle_key(Key::Char('j'));
    assert_eq!(app.selected, Some(1));
    app.handle_key(Key::Down);
    app.handle_key(Key::Down);
    assert_eq!(app.selected, Some(2));
    app.handle_key(Key::Char('k'));
    assert_eq!(app.selected, Some(1));
    app.handle_key(Key::Up);
    app.handle_key(Key::Up);
    assert_eq!(app.selected, Some(0));
    app.selected = None;
    app.select_prev();
    assert_eq!(app.selected, Some(0));
    app.selected = None;
    app.select_next();
    assert_eq!(app.selected, Some(0));
    app.videos.clear();
    app.selected = None;
    app.select_next();
    assert_eq!(app.selected, None);
}

#[test]
fn enter_plays_the_highlighted_video() {
    let mut app = searched("q");
    app.store_fetched_page(0, vec![vid("a", 3)]);
    match app.handle_key(Key::Enter) {
        Command::Play { url } => assert_eq!(url, "https://www.youtube.com/watch?v=id-a"),
        other => panic!("unexpected {other:?}"),
    }
    assert_eq!(app.message, "Playing: a");
    app.finish_play(Ok(()));
    assert_eq!(app.message, "Returned from mpv.");
    app.finish_play(Err("no mpv".to_string()));
    assert_eq!(app.message, "Playback error: no mpv");
}

#[test]
fn video_without_address_is_not_played() {
    let mut app = searched("q");
    let mut v = vid("a", 1);
    v.id = None;
    app.store_fetched_page(0, vec![v]);
    assert!(matches!(app.handle_key(Key::Enter), Command::Nothing));
    assert_eq!(app.message, "No URL available for this video.");
    assert!(app.selected_video().is_some());
    app.selected = Some(5);
    assert!(app.selected_video().is_none());
}

#[test]
fn help_closes_to_the_right_mode() {
    let mut app = App::new();
    app.handle_key(Key::Char('?'));
    assert_eq!(app.input_mode, InputMode::Help);
    assert_eq!(app.footer_text(), " Press any key to close help ");
    app.handle_key(Key::Char('x'));
    assert_eq!(app.input_mode, InputMode::Search);

    let mut app = searched("q");
    app.handle_key(Key::Char('?'));
    assert_eq!(app.input_mode, InputMode::Help);
    app.handle_key(Key::Enter);
    assert_eq!(app.input_mode, InputMode::Normal);
}

#[test]
fn escape_quits_or_cancels() {
    let mut app = App::new();
    app.handle_key(Key::Esc);
    assert!(app.should_quit);

    let mut app = searched("q");
    app.handle_key(Key::Char('/'));
    type_line(&mut app, "abc");
    app.handle_key(Key::Esc);
    assert!(!app.should_quit);
    assert_eq!(app.input_mode, InputMode::Normal);
    assert_eq!(app.input_buf, "");
    assert_eq!(app.query, "q");

    app.handle_key(Key::Char('q'));
    assert!(app.should_quit);
    let mut app = searched("q");
    app.handle_key(Key::Esc);
    assert!(app.should_quit);
}

#[test]
fn footer_shows_status_on_the_list() {
    let mut app = searched("q");
    app.store_fetched_page(0, vec![vid("a", 1)]);
    assert_eq!(
        app.footer_text(),
        " Page 1 -- 1 results | j/k: navigate  Enter: play  n/p: page  /: search  ?: help  q: quit"
    );
    app.clear_cache();
    assert_eq!(app.load_cached_page(0), None);
    app.do_search();
    assert_eq!(app.message, "Searching \"q\" (page 1)...");
}

#[test]
fn upload_date_is_carried_through_sorting_and_cache() {
    let mut app = searched("q --most-viewed");
    let mut a = vid("a", 1);
    a.upload_date = Some("20240131".to_string());
    let mut b = vid("b", 9);
    b.upload_date = Some("20230701".to_string());
    app.store_fetched_page(0, vec![a, b]);
    assert_eq!(app.videos[0].upload_date.as_deref(), Some("20230701"));
    assert_eq!(app.videos[1].upload_date.as_deref(), Some("20240131"));
    app.videos.clear();
    app.load_cached_page(0);
    assert_eq!(app.videos[1].upload_date.as_deref(), Some("20240131"));
    assert_eq!(app.videos[0].clone().upload_date.as_deref(), Some("20230701"));
}

#[test]
fn fetched_pages_stay_sorted_and_sized() {
    let mut app = searched("q --least-viewed");
    assert!(app.store_fetched_page(0, vec![vid("a", 5), vid("b", 1), vid("c", 5), vid("d", 2)]));
    assert_eq!(app.selected, Some(0));
    assert_eq!(app.selected_video().unwrap().title.as_deref(), Some("b"));
    let cached = app.page_cache.get(&0).unwrap().clone();
    assert!(!cached.is_empty() && cached.len() <= 10);
    let mut again = cached.clone();
    mpv_yt::sort::sort_videos(&mut again, &app.sort_order);
    let names = |v: &Vec<Video>| v.iter().map(|x| x.title.clone().unwrap()).collect::<Vec<_>>();
    assert_eq!(names(&again), names(&cached));
    assert_eq!(names(&cached), vec!["b", "d", "a", "c"]);
    app.handle_key(Key::Char('j'));
    app.handle_key(Key::Char('?'));
    app.handle_key(Key::Char('x'));
    assert_eq!(app.page_cache.len(), 1);
    assert_eq!(app.load_cached_page(0), Some(true));
    assert_eq!(app.selected_video().unwrap().title.as_deref(), Some("b"));
}
