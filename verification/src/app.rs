//! The browsing state: the query and its sort order, the page of results
//! on screen, the highlighted row, the input line, the status message and
//! the pages already fetched. Each operation is specified by a relation
//! between the state before and after it, over the state's view.
use vstd::prelude::*;

use std::collections::HashMap;

use crate::query::{order_label, parse_query_and_sort, parsed_query, SortOrder};
use crate::sort::{sort_videos, stably_sorted};
use crate::text::{chars_of, decimal, pop_char, push_char, push_decimal, trim, trim_bounds};
use crate::video::{playback_url_of, title_text, Video};

verus! {

broadcast use {vstd::string::group_string_axioms, vstd::std_specs::hash::group_hash_axioms};

/// What the keyboard is driving: the result list, the search line, or
/// the help pop-up.
#[derive(Debug, Clone, Copy, PartialEq, Eq, Structural)]
pub enum InputMode {
    Normal,
    Search,
    Help,
}

/// The browsing state.
pub struct App {
    /// The query whose results are on screen.
    pub query: String,
    /// The search line being typed.
    pub input_buf: String,
    /// The results on screen.
    pub videos: Vec<Video>,
    /// The highlighted row of the result list.
    pub selected: Option<usize>,
    /// The page on screen, counted from zero.
    pub page: usize,
    pub input_mode: InputMode,
    /// The status line.
    pub message: String,
    pub should_quit: bool,
    pub sort_order: SortOrder,
    /// The pages of the current query fetched so far, already sorted.
    pub page_cache: HashMap<usize, Vec<Video>>,
}

/// The browsing state as plain values.
#[verifier::ext_equal]
pub struct AppView {
    pub query: Seq<char>,
    pub input_buf: Seq<char>,
    pub videos: Seq<Video>,
    pub selected: Option<usize>,
    pub page: usize,
    pub input_mode: InputMode,
    pub message: Seq<char>,
    pub should_quit: bool,
    pub sort_order: SortOrder,
    pub cache: Map<usize, Seq<Video>>,
}

impl View for App {
    type V = AppView;

    open spec fn view(&self) -> AppView {
        AppView {
            query: self.query@,
            input_buf: self.input_buf@,
            videos: self.videos@,
            selected: self.selected,
            page: self.page,
            input_mode: self.input_mode,
            message: self.message@,
            should_quit: self.should_quit,
            sort_order: self.sort_order,
            cache: self.page_cache@.map_values(|v: Vec<Video>| v@),
        }
    }
}

impl AppView {
    /// This state with the status line `m`.
    pub open spec fn with_message(self, m: Seq<char>) -> AppView {
        AppView { message: m, ..self }
    }

    /// This state with the highlighted row `sel`.
    pub open spec fn with_selected(self, sel: Option<usize>) -> AppView {
        AppView { selected: sel, ..self }
    }

    /// This state with the input mode `m`.
    pub open spec fn with_mode(self, m: InputMode) -> AppView {
        AppView { input_mode: m, ..self }
    }

    /// This state with the search line `buf`.
    pub open spec fn with_input(self, buf: Seq<char>) -> AppView {
        AppView { input_buf: buf, ..self }
    }

    /// This state, marked to end the session.
    pub open spec fn quitting(self) -> AppView {
        AppView { should_quit: true, ..self }
    }

    /// This state with the fetched pages `cache`.
    pub open spec fn with_cache(self, cache: Map<usize, Seq<Video>>) -> AppView {
        AppView { cache: cache, ..self }
    }
}

/// The state a session starts in: searching, with nothing found yet.
pub open spec fn initial_state() -> AppView {
    AppView {
        query: Seq::empty(),
        input_buf: Seq::empty(),
        videos: Seq::empty(),
        selected: None,
        page: 0,
        input_mode: InputMode::Search,
        message: "Type a search query and press Enter (? for help)"@,
        should_quit: false,
        sort_order: SortOrder::Default,
        cache: Map::empty(),
    }
}

/// The status line while `page` of `query` is being fetched.
pub open spec fn searching_text(query: Seq<char>, page: int) -> Seq<char> {
    "Searching \""@ + query + "\" (page "@ + decimal((page + 1) as nat) + ")..."@
}

/// The status line once `page` is on screen with `count` results.
pub open spec fn page_loaded_text(page: int, count: int, cached: bool) -> Seq<char> {
    "Page "@ + decimal((page + 1) as nat) + " -- "@ + decimal(count as nat) + if cached {
        " results (cached)"@
    } else {
        " results"@
    }
}

/// The row highlighted after moving down: the next row, staying on the
/// last; the first row when none is highlighted; no change on an empty
/// list.
pub open spec fn next_selection(selected: Option<usize>, len: int) -> Option<usize> {
    if len == 0 {
        selected
    } else {
        match selected {
            Some(i) => Some(
                if i + 1 < len - 1 {
                    (i + 1) as usize
                } else {
                    (len - 1) as usize
                },
            ),
            None => Some(0),
        }
    }
}

/// The row highlighted after moving up: the previous row, staying on the
/// first; the first row when none is highlighted; no change on an empty
/// list.
pub open spec fn prev_selection(selected: Option<usize>, len: int) -> Option<usize> {
    if len == 0 {
        selected
    } else {
        match selected {
            Some(i) => Some(
                if i > 0 {
                    (i - 1) as usize
                } else {
                    0
                },
            ),
            None => Some(0),
        }
    }
}

/// The video on the highlighted row, if any.
pub open spec fn selected_of(s: AppView) -> Option<Video> {
    match s.selected {
        Some(i) => if i < s.videos.len() {
            Some(s.videos[i as int])
        } else {
            None
        },
        None => None,
    }
}

/// Showing `page` from the fetched pages: `None` when it has not been
/// fetched (nothing changes); otherwise the page is put on screen with
/// its first row highlighted (no row when it is empty) and the result
/// tells whether it holds any result.
pub open spec fn load_cached_step(old: AppView, page: usize, new: AppView, r: Option<bool>) -> bool {
    if old.cache.contains_key(page) {
        let vids = old.cache[page];
        &&& r == Some(vids.len() > 0)
        &&& new == AppView {
            videos: vids,
            page: page,
            selected: if vids.len() == 0 {
                None
            } else {
                Some(0usize)
            },
            message: page_loaded_text(page as int, vids.len() as int, true),
            ..old
        }
    } else {
        &&& r is None
        &&& new == old
    }
}

/// Taking the fetched results of `page`: none leaves everything as it
/// was and gives `false`; otherwise they are sorted by the current order,
/// kept as that page, put on screen with the first row highlighted, and
/// the result is `true`.
pub open spec fn store_fetched_step(
    old: AppView,
    page: usize,
    fetched: Seq<Video>,
    new: AppView,
    r: bool,
) -> bool {
    if fetched.len() == 0 {
        &&& !r
        &&& new == old
    } else {
        &&& r
        &&& stably_sorted(old.sort_order, fetched, new.videos)
        &&& new == AppView {
            videos: new.videos,
            page: page,
            selected: Some(0usize),
            message: page_loaded_text(page as int, fetched.len() as int, false),
            cache: old.cache.insert(page, new.videos),
            ..old
        }
    }
}

/// Why a page is being loaded: for a new query, to go forward a page, or
/// to go back a page.
#[derive(Debug, Clone, Copy, PartialEq, Eq, Structural)]
pub enum LoadPurpose {
    NewSearch,
    Next,
    Prev,
}

/// The state after loading a page for `purpose` gave `outcome`: whether
/// the page held results, or the error's text.
pub open spec fn finish_load_step(
    old: AppView,
    purpose: LoadPurpose,
    outcome: Result<bool, Seq<char>>,
    new: AppView,
) -> bool {
    match outcome {
        Ok(true) => new == old,
        Ok(false) => match purpose {
            LoadPurpose::NewSearch => new == AppView {
                message: "No results found."@,
                videos: Seq::empty(),
                selected: None,
                ..old
            },
            LoadPurpose::Next => new == AppView { message: "No more results."@, ..old },
            LoadPurpose::Prev => new == old,
        },
        Err(e) => match purpose {
            LoadPurpose::NewSearch => new == AppView {
                message: "Error: "@ + e,
                videos: Seq::empty(),
                ..old
            },
            _ => new == AppView { message: "Error: "@ + e, ..old },
        },
    }
}

/// The state after the player ran, given its error's text if it failed.
pub open spec fn finish_play_step(old: AppView, outcome: Result<(), Seq<char>>, new: AppView) -> bool {
    match outcome {
        Ok(()) => new == AppView { message: "Returned from mpv."@, ..old },
        Err(e) => new == AppView { message: "Playback error: "@ + e, ..old },
    }
}

/// The error text of an outcome, as a plain value.
pub open spec fn outcome_view<T>(o: Result<T, String>) -> Result<T, Seq<char>> {
    match o {
        Ok(v) => Ok(v),
        Err(e) => Err(e@),
    }
}

impl App {
    /// A new session: searching, with nothing found yet.
    pub fn new() -> (app: App)
        ensures
            app@ == initial_state(),
    {
        let app = App {
            query: String::new(),
            input_buf: String::new(),
            videos: Vec::new(),
            selected: None,
            page: 0,
            input_mode: InputMode::Search,
            message: "Type a search query and press Enter (? for help)".to_owned(),
            should_quit: false,
            sort_order: SortOrder::Default,
            page_cache: HashMap::new(),
        };
        assert(app@.cache =~= Map::<usize, Seq<Video>>::empty());
        app
    }

    /// Says that the current page of the query is being fetched.
    pub fn do_search(&mut self)
        requires
            old(self).page < usize::MAX,
        ensures
            final(self)@ == old(self)@.with_message(
                searching_text(old(self)@.query, old(self)@.page as int),
            ),
    {
        let mut m = "Searching \"".to_owned();
        m.append(self.query.as_str());
        m.append("\" (page ");
        push_decimal(&mut m, (self.page + 1) as u64);
        m.append(")...");
        self.message = m;
    }

    /// Forgets the fetched pages.
    pub fn clear_cache(&mut self)
        ensures
            final(self)@ == old(self)@.with_cache(Map::empty()),
    {
        self.page_cache.clear();
        assert(self@.cache =~= Map::<usize, Seq<Video>>::empty());
    }

    /// Moves the highlight down a row (see `next_selection`).
    pub fn select_next(&mut self)
        requires
            old(self).videos@.len() > 0 ==> old(self).selected != Some(usize::MAX),
        ensures
            final(self)@ == old(self)@.with_selected(
                next_selection(old(self).selected, old(self).videos@.len() as int),
            ),
    {
        if self.videos.len() == 0 {
            return;
        }
        let i = match self.selected {
            Some(i) => if i + 1 < self.videos.len() - 1 {
                i + 1
            } else {
                self.videos.len() - 1
            },
            None => 0,
        };
        self.selected = Some(i);
    }

    /// Moves the highlight up a row (see `prev_selection`).
    pub fn select_prev(&mut self)
        ensures
            final(self)@ == old(self)@.with_selected(
                prev_selection(old(self).selected, old(self).videos@.len() as int),
            ),
    {
        if self.videos.len() == 0 {
            return;
        }
        let i = match self.selected {
            Some(i) => if i > 0 {
                i - 1
            } else {
                0
            },
            None => 0,
        };
        self.selected = Some(i);
    }

    /// The video on the highlighted row, if any.
    pub fn selected_video(&self) -> (r: Option<&Video>)
        ensures
            match selected_of(self@) {
                Some(v) => (r matches Some(x) && *x == v),
                None => r is None,
            },
    {
        match self.selected {
            Some(i) => if i < self.videos.len() {
                Some(&self.videos[i])
            } else {
                None
            },
            None => None,
        }
    }

    /// Sets the status line to say that `page` is on screen with `count`
    /// results.
    fn set_page_message(&mut self, page: usize, count: usize, cached: bool)
        requires
            page < usize::MAX,
        ensures
            final(self)@ == old(self)@.with_message(
                page_loaded_text(page as int, count as int, cached),
            ),
    {
        let mut m = "Page ".to_owned();
        push_decimal(&mut m, (page + 1) as u64);
        m.append(" -- ");
        push_decimal(&mut m, count as u64);
        if cached {
            m.append(" results (cached)");
        } else {
            m.append(" results");
        }
        self.message = m;
    }

    /// Shows `page` if it has been fetched before (see `load_cached_step`);
    /// `None` means that it has to be fetched.
    pub fn load_cached_page(&mut self, page: usize) -> (r: Option<bool>)
        requires
            page < usize::MAX,
        ensures
            load_cached_step(old(self)@, page, final(self)@, r),
    {
        let cached = match self.page_cache.get(&page) {
            Some(v) => v.clone(),
            None => {
                return None;
            },
        };
        assert(cached@ =~= old(self)@.cache[page]);
        let empty = cached.len() == 0;
        let count = cached.len();
        self.videos = cached;
        self.page = page;
        self.selected = if empty {
            None
        } else {
            Some(0)
        };
        self.set_page_message(page, count, true);
        Some(!empty)
    }

    /// Takes the fetched results of `page` (see `store_fetched_step`).
    pub fn store_fetched_page(&mut self, page: usize, fetched: Vec<Video>) -> (r: bool)
        requires
            page < usize::MAX,
        ensures
            store_fetched_step(old(self)@, page, fetched@, final(self)@, r),
    {
        if fetched.len() == 0 {
            return false;
        }
        let count = fetched.len();
        let mut videos = fetched;
        sort_videos(videos.as_mut_slice(), &self.sort_order);
        let kept = videos.clone();
        assert(kept@ =~= videos@);
        self.page_cache.insert(page, kept);
        self.videos = videos;
        self.page = page;
        self.selected = Some(0);
        self.set_page_message(page, count, false);
        assert(self@.cache =~= old(self)@.cache.insert(page, self@.videos));
        true
    }

    /// Reports how loading a page for `purpose` went (see
    /// `finish_load_step`).
    pub fn finish_load(&mut self, purpose: LoadPurpose, outcome: Result<bool, String>)
        ensures
            finish_load_step(old(self)@, purpose, outcome_view(outcome), final(self)@),
    {
        match outcome {
            Ok(true) => {},
            Ok(false) => match purpose {
                LoadPurpose::NewSearch => {
                    self.message = "No results found.".to_owned();
                    self.videos.clear();
                    self.selected = None;
                },
                LoadPurpose::Next => {
                    self.message = "No more results.".to_owned();
                },
                LoadPurpose::Prev => {},
            },
            Err(e) => {
                let mut m = "Error: ".to_owned();
                m.append(e.as_str());
                self.message = m;
                if let LoadPurpose::NewSearch = purpose {
                    self.videos.clear();
                }
            },
        }
    }

    /// Reports how playing a video went (see `finish_play_step`).
    pub fn finish_play(&mut self, outcome: Result<(), String>)
        ensures
            finish_play_step(old(self)@, outcome_view(outcome), final(self)@),
    {
        match outcome {
            Ok(()) => {
                self.message = "Returned from mpv.".to_owned();
            },
            Err(e) => {
                let mut m = "Playback error: ".to_owned();
                m.append(e.as_str());
                self.message = m;
            },
        }
    }
}

/// A key press, as far as the browser tells keys apart.
#[derive(Debug, Clone, Copy, PartialEq, Eq, Structural)]
pub enum Key {
    Enter,
    Esc,
    Backspace,
    Up,
    Down,
    Char(char),
    Other,
}

/// What the caller has to do after a key press: nothing, load a page
/// (redrawing the screen first unless going back a page), or play a
/// video from an address.
#[derive(Debug)]
pub enum Command {
    Nothing,
    Load { page: usize, purpose: LoadPurpose },
    Play { url: String },
}

/// A key press in the help pop-up: any key closes it, back to the search
/// line when no query has been run yet, else to the result list.
pub open spec fn help_key_step(old: AppView, new: AppView, cmd: Command) -> bool {
    &&& cmd is Nothing
    &&& new == old.with_mode(
        if old.query.len() == 0 {
            InputMode::Search
        } else {
            InputMode::Normal
        },
    )
}

/// The state once the search line `old.input_buf` is run: its query and
/// sort order become current, the first page is about to be fetched, the
/// fetched pages are forgotten and the result list takes the keys.
pub open spec fn new_search_state(old: AppView) -> AppView {
    let (q, o) = parsed_query(old.input_buf);
    AppView {
        query: q,
        sort_order: o,
        page: 0,
        cache: Map::empty(),
        input_mode: InputMode::Normal,
        input_buf: Seq::empty(),
        message: searching_text(q, 0),
        ..old
    }
}

/// A key press on the search line.
pub open spec fn search_key_step(old: AppView, key: Key, new: AppView, cmd: Command) -> bool {
    match key {
        Key::Enter => if trim(old.input_buf).len() > 0 {
            &&& cmd == (Command::Load { page: 0, purpose: LoadPurpose::NewSearch })
            &&& new == new_search_state(old)
        } else {
            &&& cmd is Nothing
            &&& new == old
        },
        Key::Esc => {
            &&& cmd is Nothing
            &&& new == if old.query.len() == 0 {
                old.quitting()
            } else {
                old.with_input(Seq::empty()).with_mode(InputMode::Normal)
            }
        },
        Key::Char(c) => {
            &&& cmd is Nothing
            &&& new == if c == '?' {
                old.with_mode(InputMode::Help)
            } else {
                old.with_input(old.input_buf.push(c))
            }
        },
        Key::Backspace => {
            &&& cmd is Nothing
            &&& new == old.with_input(
                if old.input_buf.len() > 0 {
                    old.input_buf.drop_last()
                } else {
                    old.input_buf
                },
            )
        },
        _ => {
            &&& cmd is Nothing
            &&& new == old
        },
    }
}

/// Pressing Enter on the result list: the highlighted video is played
/// when it has an address; otherwise the status line says why not.
pub open spec fn play_key_step(old: AppView, new: AppView, cmd: Command) -> bool {
    match selected_of(old) {
        Some(v) => if playback_url_of(v).len() > 0 {
            &&& (cmd matches Command::Play { url } && url@ == playback_url_of(v))
            &&& new == old.with_message("Playing: "@ + title_text(v))
        } else {
            &&& cmd is Nothing
            &&& new == old.with_message("No URL available for this video."@)
        },
        None => {
            &&& cmd is Nothing
            &&& new == old
        },
    }
}

/// A key press on the result list.
pub open spec fn normal_key_step(old: AppView, key: Key, new: AppView, cmd: Command) -> bool {
    let len = old.videos.len() as int;
    match key {
        Key::Esc => cmd is Nothing && new == old.quitting(),
        Key::Down => cmd is Nothing && new == old.with_selected(next_selection(old.selected, len)),
        Key::Up => cmd is Nothing && new == old.with_selected(prev_selection(old.selected, len)),
        Key::Enter => play_key_step(old, new, cmd),
        Key::Char(c) => if c == 'q' {
            cmd is Nothing && new == old.quitting()
        } else if c == 'j' {
            cmd is Nothing && new == old.with_selected(next_selection(old.selected, len))
        } else if c == 'k' {
            cmd is Nothing && new == old.with_selected(prev_selection(old.selected, len))
        } else if c == '/' {
            cmd is Nothing && new == old.with_mode(InputMode::Search).with_input(Seq::empty())
        } else if c == '?' {
            cmd is Nothing && new == old.with_mode(InputMode::Help)
        } else if c == 'n' {
            &&& cmd == (Command::Load { page: (old.page + 1) as usize, purpose: LoadPurpose::Next })
            &&& new == old.with_message(searching_text(old.query, old.page as int))
        } else if c == 'p' {
            if old.page > 0 {
                &&& cmd == (Command::Load {
                    page: (old.page - 1) as usize,
                    purpose: LoadPurpose::Prev,
                })
                &&& new == old
            } else {
                cmd is Nothing && new == old.with_message("Already on first page."@)
            }
        } else {
            cmd is Nothing && new == old
        },
        _ => cmd is Nothing && new == old,
    }
}

/// A key press, in whatever mode the keyboard is in.
pub open spec fn key_step(old: AppView, key: Key, new: AppView, cmd: Command) -> bool {
    match old.input_mode {
        InputMode::Help => help_key_step(old, new, cmd),
        InputMode::Search => search_key_step(old, key, new, cmd),
        InputMode::Normal => normal_key_step(old, key, new, cmd),
    }
}

/// The key press stays within the machine's integers: going forward a
/// page needs a next page number, and moving down needs a next row.
pub open spec fn key_in_range(old: AppView, key: Key) -> bool {
    old.input_mode == InputMode::Normal ==> {
        &&& key == Key::Char('n') ==> old.page < usize::MAX
        &&& (key == Key::Char('j') || key == Key::Down) && old.videos.len() > 0 ==> old.selected
            != Some(usize::MAX)
    }
}

/// The label of the sort order in the header; nothing for the default
/// order.
pub open spec fn sort_label_text(o: SortOrder) -> Seq<char> {
    if o != SortOrder::Default {
        " [sorted: "@ + order_label(o) + "]"@
    } else {
        Seq::empty()
    }
}

/// The header line: the search line being typed, or the query, page and
/// sort order on screen.
pub open spec fn header_text_of(s: AppView) -> Seq<char> {
    match s.input_mode {
        InputMode::Normal => " \""@ + s.query + "\"  --  Page "@ + decimal((s.page + 1) as nat)
            + sort_label_text(s.sort_order),
        _ => " Search: "@ + s.input_buf + "|"@,
    }
}

/// The footer line: the keys of the current mode, and the status line on
/// the result list.
pub open spec fn footer_text_of(s: AppView) -> Seq<char> {
    match s.input_mode {
        InputMode::Search => " Enter: search | Esc: cancel | ?: filter help "@,
        InputMode::Help => " Press any key to close help "@,
        InputMode::Normal => " "@ + s.message
            + " | j/k: navigate  Enter: play  n/p: page  /: search  ?: help  q: quit"@,
    }
}

impl App {
    /// Handles one key press (see `key_step`).
    pub fn handle_key(&mut self, key: Key) -> (cmd: Command)
        requires
            key_in_range(old(self)@, key),
        ensures
            key_step(old(self)@, key, final(self)@, cmd),
    {
        match self.input_mode {
            InputMode::Help => {
                self.input_mode = if self.query.as_str().is_empty() {
                    InputMode::Search
                } else {
                    InputMode::Normal
                };
                Command::Nothing
            },
            InputMode::Search => self.search_key(key),
            InputMode::Normal => self.normal_key(key),
        }
    }

    /// Handles a key press on the search line.
    fn search_key(&mut self, key: Key) -> (cmd: Command)
        requires
            old(self).input_mode == InputMode::Search,
        ensures
            search_key_step(old(self)@, key, final(self)@, cmd),
    {
        match key {
            Key::Enter => {
                let buf = chars_of(self.input_buf.as_str());
                let (a, b) = trim_bounds(&buf, 0, buf.len());
                assert(buf@.subrange(0, buf@.len() as int) =~= buf@);
                if a == b {
                    return Command::Nothing;
                }
                let raw = self.input_buf.clone();
                self.input_buf = String::new();
                let (query, sort) = parse_query_and_sort(raw.as_str());
                self.query = query;
                self.sort_order = sort;
                self.page = 0;
                self.clear_cache();
                self.input_mode = InputMode::Normal;
                self.do_search();
                Command::Load { page: 0, purpose: LoadPurpose::NewSearch }
            },
            Key::Esc => {
                if self.query.as_str().is_empty() {
                    self.should_quit = true;
                } else {
                    self.input_buf = String::new();
                    self.input_mode = InputMode::Normal;
                }
                Command::Nothing
            },
            Key::Char(c) => {
                if c == '?' {
                    self.input_mode = InputMode::Help;
                } else {
                    push_char(&mut self.input_buf, c);
                }
                Command::Nothing
            },
            Key::Backspace => {
                pop_char(&mut self.input_buf);
                Command::Nothing
            },
            _ => Command::Nothing,
        }
    }

    /// Handles a key press on the result list.
    fn normal_key(&mut self, key: Key) -> (cmd: Command)
        requires
            old(self).input_mode == InputMode::Normal,
            key_in_range(old(self)@, key),
        ensures
            normal_key_step(old(self)@, key, final(self)@, cmd),
    {
        match key {
            Key::Esc => {
                self.should_quit = true;
                Command::Nothing
            },
            Key::Down => {
                self.select_next();
                Command::Nothing
            },
            Key::Up => {
                self.select_prev();
                Command::Nothing
            },
            Key::Enter => self.play_key(),
            Key::Char(c) => {
                if c == 'q' {
                    self.should_quit = true;
                    Command::Nothing
                } else if c == 'j' {
                    self.select_next();
                    Command::Nothing
                } else if c == 'k' {
                    self.select_prev();
                    Command::Nothing
                } else if c == '/' {
                    self.input_mode = InputMode::Search;
                    self.input_buf = String::new();
                    Command::Nothing
                } else if c == '?' {
                    self.input_mode = InputMode::Help;
                    Command::Nothing
                } else if c == 'n' {
                    let next = self.page + 1;
                    self.do_search();
                    Command::Load { page: next, purpose: LoadPurpose::Next }
                } else if c == 'p' {
                    if self.page > 0 {
                        Command::Load { page: self.page - 1, purpose: LoadPurpose::Prev }
                    } else {
                        self.message = "Already on first page.".to_owned();
                        Command::Nothing
                    }
                } else {
                    Command::Nothing
                }
            },
            _ => Command::Nothing,
        }
    }

    /// Handles Enter on the result list.
    fn play_key(&mut self) -> (cmd: Command)
        ensures
            play_key_step(old(self)@, final(self)@, cmd),
    {
        let (url, title) = match self.selected_video() {
            Some(video) => (video.playback_url(), video.display_title().to_owned()),
            None => {
                return Command::Nothing;
            },
        };
        if !url.as_str().is_empty() {
            let mut m = "Playing: ".to_owned();
            m.append(title.as_str());
            self.message = m;
            Command::Play { url }
        } else {
            self.message = "No URL available for this video.".to_owned();
            Command::Nothing
        }
    }

    /// The label of the current sort order in the header.
    pub fn sort_label(&self) -> (s: String)
        ensures
            s@ == sort_label_text(self.sort_order),
    {
        if self.sort_order != SortOrder::Default {
            let mut s = " [sorted: ".to_owned();
            s.append(self.sort_order.label());
            s.append("]");
            s
        } else {
            String::new()
        }
    }

    /// The header line.
    pub fn header_text(&self) -> (s: String)
        requires
            self.input_mode == InputMode::Normal ==> self.page < usize::MAX,
        ensures
            s@ == header_text_of(self@),
    {
        match self.input_mode {
            InputMode::Normal => {
                let mut s = " \"".to_owned();
                s.append(self.query.as_str());
                s.append("\"  --  Page ");
                push_decimal(&mut s, (self.page + 1) as u64);
                s.append(self.sort_label().as_str());
                s
            },
            _ => {
                let mut s = " Search: ".to_owned();
                s.append(self.input_buf.as_str());
                s.append("|");
                s
            },
        }
    }

    /// The footer line.
    pub fn footer_text(&self) -> (s: String)
        ensures
            s@ == footer_text_of(self@),
    {
        match self.input_mode {
            InputMode::Search => " Enter: search | Esc: cancel | ?: filter help ".to_owned(),
            InputMode::Help => " Press any key to close help ".to_owned(),
            InputMode::Normal => {
                let mut s = " ".to_owned();
                s.append(self.message.as_str());
                s.append(" | j/k: navigate  Enter: play  n/p: page  /: search  ?: help  q: quit");
                s
            },
        }
    }
}

} // verus!
