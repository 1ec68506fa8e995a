//! Windows over the page: where they stand and how they scroll.

use vstd::prelude::*;
use crate::renderer::less;
use crate::text::same;

verus! {

pub open spec fn minus(a: int, b: int) -> int {
    if a < b {
        0
    } else {
        a - b
    }
}

/// Where a window of at most `w` by `h` cells stands on the screen: its column, row, width
/// and height. It leaves a margin and is in the middle.
pub open spec fn is_placed(r: (u16, u16, u16, u16), cols: u16, rows: u16, w: u16, h: u16) -> bool {
    &&& r.2 == less(w as int, minus(cols as int, 4))
    &&& r.3 == less(h as int, minus(rows as int, 4))
    &&& r.0 == (cols - r.2) / 2
    &&& r.1 == (rows - r.3) / 2
}

pub fn place_popup(cols: u16, rows: u16, w: u16, h: u16) -> (r: (u16, u16, u16, u16))
    ensures
        is_placed(r, cols, rows, w, h),
{
    let mc: u16 = if cols < 4 {
        0
    } else {
        cols - 4
    };
    let mr: u16 = if rows < 4 {
        0
    } else {
        rows - 4
    };
    let pw: u16 = if w < mc {
        w
    } else {
        mc
    };
    let ph: u16 = if h < mr {
        h
    } else {
        mr
    };
    ((cols - pw) / 2, (rows - ph) / 2, pw, ph)
}

/// Where the preferences window with `n` items stands.
pub open spec fn is_prefs_placed(r: (u16, u16, u16, u16), cols: u16, rows: u16, n: int) -> bool {
    &&& r.2 == less(56, minus(cols as int, 4))
    &&& r.3 == less(n + 5, minus(rows as int, 6))
    &&& r.0 == (cols - r.2) / 2
    &&& r.1 == (rows - r.3) / 2
}

pub fn place_preferences(cols: u16, rows: u16, n: usize) -> (r: (u16, u16, u16, u16))
    ensures
        is_prefs_placed(r, cols, rows, n as int),
{
    let mc: u16 = if cols < 4 {
        0
    } else {
        cols - 4
    };
    let mr: u16 = if rows < 6 {
        0
    } else {
        rows - 6
    };
    let pw: u16 = if 56 < mc {
        56
    } else {
        mc
    };
    let ph: u16 = if n < 65530 && n as u16 + 5 < mr {
        n as u16 + 5
    } else {
        mr
    };
    ((cols - pw) / 2, (rows - ph) / 2, pw, ph)
}

/// The first line on show after a key, of `total` lines of which `view` fit; `None` where
/// the window closes.
pub open spec fn scrolled(
    ix: int,
    total: int,
    view: int,
    key: Seq<char>,
    question_closes: bool,
) -> Option<int> {
    if key == "ESC"@ || key == "q"@ || (question_closes && key == "?"@) {
        None
    } else if key == "j"@ || key == "DOWN"@ {
        Some(
            if ix + view < total {
                ix + 1
            } else {
                ix
            },
        )
    } else if key == "k"@ || key == "UP"@ {
        Some(minus(ix, 1))
    } else if key == "PgDOWN"@ || key == " "@ {
        Some(
            if ix + view < total {
                less(ix + view, total - view)
            } else {
                ix
            },
        )
    } else if key == "PgUP"@ {
        Some(minus(ix, view))
    } else if key == "g"@ {
        Some(0)
    } else if key == "G"@ {
        Some(minus(total, view))
    } else {
        Some(ix)
    }
}

pub fn scroll_popup(ix: usize, total: usize, view: usize, key: &str, question_closes: bool) -> (r:
    Option<usize>)
    ensures
        match r {
            Some(n) => scrolled(ix as int, total as int, view as int, key@, question_closes) == Some(
                n as int,
            ),
            None => scrolled(ix as int, total as int, view as int, key@, question_closes) is None,
        },
{
    let more = view < total && ix < total - view;
    if same(key, "ESC") || same(key, "q") || (question_closes && same(key, "?")) {
        None
    } else if same(key, "j") || same(key, "DOWN") {
        if more {
            Some(ix + 1)
        } else {
            Some(ix)
        }
    } else if same(key, "k") || same(key, "UP") {
        Some(ix.saturating_sub(1))
    } else if same(key, "PgDOWN") || same(key, " ") {
        if more {
            let last: usize = total - view;
            if view < last && ix < last - view {
                Some(ix + view)
            } else {
                Some(last)
            }
        } else {
            Some(ix)
        }
    } else if same(key, "PgUP") {
        Some(ix.saturating_sub(view))
    } else if same(key, "g") {
        Some(0)
    } else if same(key, "G") {
        Some(total.saturating_sub(view))
    } else {
        Some(ix)
    }
}

/// No key scrolls a window past its last line.
pub proof fn law_scroll_bounded(
    ix: int,
    total: int,
    view: int,
    key: Seq<char>,
    question_closes: bool,
)
    requires
        0 <= view,
        0 <= total,
        0 <= ix <= minus(total, view),
    ensures
        scrolled(ix, total, view, key, question_closes) matches Some(n) ==> 0 <= n <= minus(
            total,
            view,
        ),
{
}

} // verus!
