//! One search result and the text shown for it in the result list.
use vstd::prelude::*;

use crate::text::{
    chars_of, decimal, matches_at, matches_here, push_char, push_decimal, push_two_digits,
    two_digits,
};

verus! {

broadcast use vstd::string::group_string_axioms;

/// A video's length as the feed gives it: a number of seconds, held as
/// the two values the browser reads of it.
#[derive(Debug, Clone, Copy, PartialEq, Eq, Structural)]
pub struct Length {
    /// The whole seconds: the feed's seconds without their fraction,
    /// saturated to the range of `u64` (what `secs as u64` gives).
    pub whole_secs: u64,
    /// A rank that orders lengths as their numbers of seconds compare:
    /// equal ranks for equal lengths, a smaller rank for a shorter length
    /// (the IEEE 754 bits of the seconds, with the sign bit flipped for a
    /// length of zero or more and every bit flipped for a negative one).
    pub rank: u64,
}

/// The rank of a length of zero seconds.
pub const ZERO_SECS_RANK: u64 = 0x8000_0000_0000_0000;

/// The rank of the largest finite number of seconds (`f64::MAX`).
pub const MAX_SECS_RANK: u64 = 0xffef_ffff_ffff_ffff;

/// One video of a search result, as the search feed describes it.
/// Every field may be missing from the feed.
#[derive(Debug)]
pub struct Video {
    pub title: Option<String>,
    pub channel: Option<String>,
    pub duration: Option<Length>,
    pub view_count: Option<u64>,
    pub url: Option<String>,
    pub id: Option<String>,
    pub webpage_url: Option<String>,
    /// The upload date as the feed gives it (`YYYYMMDD`).
    pub upload_date: Option<String>,
}

impl Clone for Video {
    fn clone(&self) -> (r: Self)
        ensures
            r == *self,
    {
        Video {
            title: self.title.clone(),
            channel: self.channel.clone(),
            duration: self.duration,
            view_count: self.view_count,
            url: self.url.clone(),
            id: self.id.clone(),
            webpage_url: self.webpage_url.clone(),
            upload_date: self.upload_date.clone(),
        }
    }
}

/// The title shown for a video.
pub open spec fn title_text(v: Video) -> Seq<char> {
    match v.title {
        Some(t) => t@,
        None => "Unknown Title"@,
    }
}

/// The channel shown for a video.
pub open spec fn channel_text(v: Video) -> Seq<char> {
    match v.channel {
        Some(c) => c@,
        None => "Unknown"@,
    }
}

/// A length of `s` whole seconds as `h:mm:ss`, or `m:ss` under an hour.
pub open spec fn clock_text(s: u64) -> Seq<char> {
    let h = s / 3600;
    let m = (s % 3600) / 60;
    let sec = s % 60;
    if h > 0 {
        decimal(h as nat) + seq![':'] + two_digits(m as nat) + seq![':'] + two_digits(sec as nat)
    } else {
        decimal(m as nat) + seq![':'] + two_digits(sec as nat)
    }
}

/// The length shown for a video.
pub open spec fn duration_text(v: Video) -> Seq<char> {
    match v.duration {
        Some(len) => clock_text(len.whole_secs),
        None => "??:??"@,
    }
}

/// How a view count is shown: unknown, as it is, or scaled down by
/// `unit` and followed by the letter `suffix`.
#[derive(Debug, Clone, Copy, PartialEq, Eq, Structural)]
pub enum ViewCount {
    Unknown,
    Plain(u64),
    Scaled { count: u64, unit: u64, suffix: char },
}

/// The way the view count `v` is shown: a billion views and more in
/// billions (`B`), a million and more in millions (`M`), a thousand and
/// more in thousands (`K`), fewer as they are.
pub open spec fn view_count_class(v: Option<u64>) -> ViewCount {
    match v {
        None => ViewCount::Unknown,
        Some(n) => if n >= 1_000_000_000 {
            ViewCount::Scaled { count: n, unit: 1_000_000_000, suffix: 'B' }
        } else if n >= 1_000_000 {
            ViewCount::Scaled { count: n, unit: 1_000_000, suffix: 'M' }
        } else if n >= 1_000 {
            ViewCount::Scaled { count: n, unit: 1_000, suffix: 'K' }
        } else {
            ViewCount::Plain(n)
        },
    }
}

/// The text of an unscaled view count.
pub open spec fn plain_views_text(c: ViewCount) -> Option<Seq<char>> {
    match c {
        ViewCount::Unknown => Some("? views"@),
        ViewCount::Plain(n) => Some(decimal(n as nat) + " views"@),
        ViewCount::Scaled { .. } => None,
    }
}

/// The address of the watch page of the video with the given id.
pub open spec fn watch_page(id: Seq<char>) -> Seq<char> {
    "https://www.youtube.com/watch?v="@ + id
}

/// The address a video is played from: its page address when the feed
/// gives one, else the watch page of its id, else its `url` when that
/// is an address (starts with `http`) or the watch page of `url` taken
/// as an id; empty when the feed gives none of them.
pub open spec fn playback_url_of(v: Video) -> Seq<char> {
    match v.webpage_url {
        Some(w) => w@,
        None => match v.id {
            Some(id) => watch_page(id@),
            None => match v.url {
                Some(u) => if matches_at(u@, "http"@, 0) {
                    u@
                } else {
                    watch_page(u@)
                },
                None => Seq::empty(),
            },
        },
    }
}

impl ViewCount {
    /// The text of a view count that is not scaled; `None` for a scaled
    /// count, whose one-decimal rendering is left to the caller.
    pub fn plain_text(&self) -> (r: Option<String>)
        ensures
            match plain_views_text(*self) {
                Some(t) => r matches Some(s) && s@ == t,
                None => r is None,
            },
    {
        match self {
            ViewCount::Unknown => Some("? views".to_owned()),
            ViewCount::Plain(n) => {
                let mut s = String::new();
                push_decimal(&mut s, *n);
                s.append(" views");
                Some(s)
            },
            ViewCount::Scaled { .. } => None,
        }
    }
}

impl Video {
    /// The title shown for this video.
    pub fn display_title(&self) -> (s: &str)
        ensures
            s@ == title_text(*self),
    {
        match &self.title {
            Some(t) => t.as_str(),
            None => "Unknown Title",
        }
    }

    /// The channel shown for this video.
    pub fn display_channel(&self) -> (s: String)
        ensures
            s@ == channel_text(*self),
    {
        match &self.channel {
            Some(c) => c.clone(),
            None => "Unknown".to_owned(),
        }
    }

    /// The length shown for this video.
    pub fn display_duration(&self) -> (s: String)
        ensures
            s@ == duration_text(*self),
    {
        match self.duration {
            Some(len) => {
                let secs = len.whole_secs;
                let h = secs / 3600;
                let m = (secs % 3600) / 60;
                let sec = secs % 60;
                let mut s = String::new();
                if h > 0 {
                    push_decimal(&mut s, h);
                    push_char(&mut s, ':');
                    push_two_digits(&mut s, m);
                } else {
                    push_decimal(&mut s, m);
                }
                push_char(&mut s, ':');
                push_two_digits(&mut s, sec);
                s
            },
            None => "??:??".to_owned(),
        }
    }

    /// How this video's view count is shown.
    pub fn view_count_display(&self) -> (c: ViewCount)
        ensures
            c == view_count_class(self.view_count),
    {
        match self.view_count {
            None => ViewCount::Unknown,
            Some(n) => if n >= 1_000_000_000 {
                ViewCount::Scaled { count: n, unit: 1_000_000_000, suffix: 'B' }
            } else if n >= 1_000_000 {
                ViewCount::Scaled { count: n, unit: 1_000_000, suffix: 'M' }
            } else if n >= 1_000 {
                ViewCount::Scaled { count: n, unit: 1_000, suffix: 'K' }
            } else {
                ViewCount::Plain(n)
            },
        }
    }

    /// The address this video is played from (see `playback_url_of`).
    pub fn playback_url(&self) -> (s: String)
        ensures
            s@ == playback_url_of(*self),
    {
        if let Some(url) = &self.webpage_url {
            url.clone()
        } else if let Some(id) = &self.id {
            let mut s = "https://www.youtube.com/watch?v=".to_owned();
            s.append(id.as_str());
            s
        } else if let Some(url) = &self.url {
            let u = chars_of(url.as_str());
            let http = chars_of("http");
            if matches_here(&u, &http, 0) {
                url.clone()
            } else {
                let mut s = "https://www.youtube.com/watch?v=".to_owned();
                s.append(url.as_str());
                s
            }
        } else {
            String::new()
        }
    }
}

} // verus!
