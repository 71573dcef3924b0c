# mpv_yt

A terminal browser for video search results, played with `mpv`, with its
browsing logic verified by Verus.

- `src/` is the verified library:
  - `text.rs`: whitespace trimming, substring search and decimal digits
    over the `Seq<char>` view of strings;
  - `query.rs`: sort orders and the parser that splits a typed search line
    into a query and a sort flag;
  - `video.rs`: one search result and the text shown for it;
  - `sort.rs`: the stable sort of a page by the chosen order;
  - `search.rs`: the search term, the records of the search tool's output,
    and the window of results that makes a page;
  - `screen.rs`: shortened titles, row numbers, the help pop-up's area;
  - `app.rs`: the browsing state and its key handling, each operation
    specified as a relation between the states before and after it;
  - `laws.rs`: properties spanning operations (the sort has one outcome,
    fetched pages are reused until a new search, the highlight stays on the
    list, parsed queries are trimmed, ...).
- `app/main.rs` runs the program: it reads keys, runs `yt-dlp` and `mpv`,
  reads the JSON records, and draws the screen with `ratatui`.
- `tests/` exercises the library on concrete values.
