//! Text and geometry of the screen that do not depend on the browsing
//! state: shortened titles, row numbers and the help pop-up's area.
use vstd::prelude::*;

use crate::search::{page_offset, RESULTS_PER_PAGE};
use crate::text::{chars_of, decimal, push_char, push_chars, push_decimal};

verus! {

broadcast use vstd::string::group_string_axioms;

/// `s` cut down to `max_len - 1` characters followed by `...` when it is
/// longer than `max_len` characters, else `s` itself.
pub open spec fn truncated(s: Seq<char>, max_len: int) -> Seq<char> {
    if s.len() > max_len {
        s.take(max_len - 1) + "..."@
    } else {
        s
    }
}

/// Shortens `s` to fit a column of `max_len` characters (see
/// `truncated`).
pub fn truncate_str(s: &str, max_len: usize) -> (r: String)
    requires
        max_len > 0 || s@.len() == 0,
    ensures
        r@ == truncated(s@, max_len as int),
{
    let v = chars_of(s);
    if v.len() > max_len {
        let mut r = String::new();
        push_chars(&mut r, &v, 0, max_len - 1);
        r.append("...");
        assert(v@.subrange(0, max_len - 1) =~= v@.take(max_len - 1));
        r
    } else {
        assert(v@.subrange(0, v@.len() as int) =~= v@);
        let mut r = String::new();
        push_chars(&mut r, &v, 0, v.len());
        r
    }
}

/// The number shown before the `index`-th row of `page`: its position
/// in all the results, counted from one.
pub open spec fn row_number(index: int, page: int) -> int {
    index + 1 + page_offset(page)
}

/// `n` right-aligned in a column two characters wide, as `{:>2}` formats
/// it.
pub open spec fn right_aligned2(n: nat) -> Seq<char> {
    if n < 10 {
        seq![' '] + decimal(n)
    } else {
        decimal(n)
    }
}

/// The label before the `index`-th row of `page`: ` <number>. `.
pub open spec fn row_label_text(index: int, page: int) -> Seq<char> {
    seq![' '] + right_aligned2(row_number(index, page) as nat) + ". "@
}

/// The label before the `index`-th row of `page`.
pub fn row_label(index: usize, page: usize) -> (s: String)
    requires
        row_number(index as int, page as int) <= usize::MAX,
    ensures
        s@ == row_label_text(index as int, page as int),
{
    let n = index + 1 + page * RESULTS_PER_PAGE;
    let mut s = String::new();
    push_char(&mut s, ' ');
    if n < 10 {
        push_char(&mut s, ' ');
    }
    push_decimal(&mut s, n as u64);
    s.append(". ");
    s
}

/// The help pop-up on a screen `width` by `height`: at most 60 columns
/// and 15 rows, four less than the screen each way when the screen is
/// smaller, centred (rounding towards the top left). The area is
/// `(x, y, width, height)`.
pub open spec fn help_area(width: int, height: int) -> (int, int, int, int) {
    let w = if width - 4 < 0 {
        0
    } else if width - 4 < 60 {
        width - 4
    } else {
        60
    };
    let h = if height - 4 < 0 {
        0
    } else if height - 4 < 15 {
        height - 4
    } else {
        15
    };
    ((width - w) / 2, (height - h) / 2, w, h)
}

/// The area of the help pop-up on a screen `width` by `height`.
pub fn help_popup_area(width: u16, height: u16) -> (r: (u16, u16, u16, u16))
    ensures
        (r.0 as int, r.1 as int, r.2 as int, r.3 as int) == help_area(width as int, height as int),
{
    let w = if width < 4 {
        0
    } else if width - 4 < 60 {
        width - 4
    } else {
        60
    };
    let h = if height < 4 {
        0
    } else if height - 4 < 15 {
        height - 4
    } else {
        15
    };
    ((width - w) / 2, (height - h) / 2, w, h)
}

} // verus!
