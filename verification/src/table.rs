//! Data tables: drawn as a box where they fit, cell by cell where they do not.

use vstd::prelude::*;
use vstd::utf8::encode_utf8;
use crate::canvas::{appended, newlined, PageView, RenderContext};
use crate::dom::{end_of, find_end, is_named, named, text_of, text_under, DomItem, ItemView};
use crate::number::{decimal, ints, number};
use crate::tab::{lemma_views_push, views};
use crate::text::{
    chars_of, concat3, is_white, repeat_char, repeated, trim, trimmed, white,
};

verus! {

broadcast use vstd::string::group_string_axioms;

// --- Whitespace ---

/// `s` with one space in place of each run of whitespace, and none at its start.
pub open spec fn collapsed(s: Seq<char>) -> Seq<char>
    decreases s.len(),
{
    if s.len() == 0 {
        s
    } else if !is_white(s.last()) {
        collapsed(s.drop_last()).push(s.last())
    } else if s.len() > 1 && !is_white(s[s.len() - 2]) {
        collapsed(s.drop_last()).push(' ')
    } else {
        collapsed(s.drop_last())
    }
}

pub fn collapse_whitespace(s: &str) -> (r: String)
    ensures
        r@ == collapsed(s@),
{
    let v = chars_of(s);
    let mut result = String::new();
    let mut last_ws = false;
    let mut empty = true;
    for i in 0..v.len()
        invariant
            v@ == s@,
            result@ == collapsed(s@.take(i as int)),
            last_ws == (i > 0 && is_white(s@[i - 1])),
            i > 0 && !last_ws ==> !empty,
            empty == (result@.len() == 0),
    {
        let c = v[i];
        let ghost t = s@.take(i + 1);
        assert(t.drop_last() =~= s@.take(i as int));
        if white(c) {
            if !last_ws && !empty {
                result.push(' ');
            }
            last_ws = true;
        } else {
            result.push(c);
            last_ws = false;
            empty = false;
        }
    }
    assert(s@.take(s@.len() as int) =~= s@);
    result
}

/// Text without leading whitespace in which whitespace is single spaces.
pub open spec fn is_collapsed(s: Seq<char>) -> bool {
    forall|i: int|
        0 <= i < s.len() && is_white(#[trigger] s[i]) ==> s[i] == ' ' && i > 0 && !is_white(s[i - 1])
}

/// Collapsing leaves no leading whitespace, no whitespace but spaces and no two spaces in
/// a row.
pub proof fn law_collapsed(s: Seq<char>)
    ensures
        is_collapsed(collapsed(s)),
    decreases s.len(),
{
    if s.len() > 0 {
        law_collapsed(s.drop_last());
        if s.len() > 1 && is_white(s.last()) && !is_white(s[s.len() - 2]) {
            let t = s.drop_last();
            assert(collapsed(t).last() == s[s.len() - 2]);
        }
    }
}

/// Collapsing text that is collapsed changes nothing.
pub proof fn law_collapse_again(s: Seq<char>)
    requires
        is_collapsed(s),
    ensures
        collapsed(s) == s,
    decreases s.len(),
{
    if s.len() > 0 {
        let t = s.drop_last();
        assert forall|i: int| 0 <= i < t.len() && is_white(#[trigger] t[i]) implies t[i] == ' ' && i
            > 0 && !is_white(t[i - 1]) by {
            assert(t[i] == s[i]);
        }
        law_collapse_again(t);
        assert(is_white(s.last()) ==> s[s.len() - 1] == ' ');
        assert(t.push(s.last()) =~= s);
    }
}

// --- The cells of a table ---

/// The cells among nodes `a` to `b`.
pub open spec fn cells_in(d: Seq<ItemView>, a: int, b: int) -> Seq<Seq<char>>
    decreases b - a,
{
    if a >= b {
        Seq::empty()
    } else if is_named(d, b - 1, "td"@) || is_named(d, b - 1, "th"@) {
        cells_in(d, a, b - 1).push(trim(collapsed(text_of(d, b - 1))))
    } else {
        cells_in(d, a, b - 1)
    }
}

pub open spec fn has_content(row: Seq<Seq<char>>) -> bool {
    exists|k: int| 0 <= k < row.len() && (#[trigger] row[k]).len() > 0
}

/// The rows among nodes `a` to `b` that have content.
pub open spec fn rows_in(d: Seq<ItemView>, a: int, b: int) -> Seq<Seq<Seq<char>>>
    decreases b - a,
{
    if a >= b {
        Seq::empty()
    } else {
        let cells = cells_in(d, b, end_of(d, b - 1));
        if is_named(d, b - 1, "tr"@) && has_content(cells) {
            rows_in(d, a, b - 1).push(cells)
        } else {
            rows_in(d, a, b - 1)
        }
    }
}

pub open spec fn grid(rows: Seq<Vec<String>>) -> Seq<Seq<Seq<char>>> {
    rows.map_values(|r: Vec<String>| views(r@))
}

fn collect_cells(d: &Vec<DomItem>, a: usize, b: usize) -> (r: Vec<String>)
    requires
        a <= b <= d@.len(),
    ensures
        views(r@) == cells_in(views(d@), a as int, b as int),
{
    let mut cells: Vec<String> = Vec::new();
    assert(views(cells@) =~= Seq::empty());
    for i in a..b
        invariant
            a <= b <= d@.len(),
            views(cells@) == cells_in(views(d@), a as int, i as int),
    {
        if named(&d[i].node, "td") || named(&d[i].node, "th") {
            let raw = text_under(d, i);
            let cell = trimmed(collapse_whitespace(raw.as_str()).as_str());
            proof {
                lemma_views_push(cells@, cell);
            }
            cells.push(cell);
        }
    }
    cells
}

fn any_content(row: &Vec<String>) -> (r: bool)
    ensures
        r == has_content(views(row@)),
{
    for k in 0..row.len()
        invariant
            forall|j: int| 0 <= j < k ==> (#[trigger] views(row@)[j]).len() == 0,
    {
        if !row[k].as_str().is_empty() {
            assert(views(row@)[k as int].len() > 0);
            return true;
        }
    }
    false
}

/// The rows of the table at node `i`.
pub open spec fn table_rows(d: Seq<ItemView>, i: int) -> Seq<Seq<Seq<char>>> {
    rows_in(d, i + 1, end_of(d, i))
}

pub fn collect_rows(d: &Vec<DomItem>, i: usize) -> (r: Vec<Vec<String>>)
    requires
        i < d@.len(),
    ensures
        grid(r@) == table_rows(views(d@), i as int),
{
    let e = find_end(d, i);
    let mut rows: Vec<Vec<String>> = Vec::new();
    assert(grid(rows@) =~= Seq::empty());
    for k in i + 1..e
        invariant
            i < e <= d@.len(),
            grid(rows@) == rows_in(views(d@), i + 1, k as int),
    {
        if named(&d[k].node, "tr") {
            let stop = find_end(d, k);
            let cells = collect_cells(d, k + 1, stop);
            if any_content(&cells) {
                let ghost before = grid(rows@);
                rows.push(cells);
                assert(grid(rows@) =~= before.push(views(cells@)));
            }
        }
    }
    rows
}

// --- Widths ---

/// The length of a text in bytes.
pub open spec fn byte_len(s: Seq<char>) -> int {
    (encode_utf8(s).len() as usize) as int
}

pub open spec fn most(a: int, b: int) -> int {
    if a < b {
        b
    } else {
        a
    }
}

/// The number of cells in the longest row.
pub open spec fn column_count(rows: Seq<Seq<Seq<char>>>) -> int
    decreases rows.len(),
{
    if rows.len() == 0 {
        0
    } else {
        most(column_count(rows.drop_last()), rows.last().len() as int)
    }
}

/// The length of the longest cell in column `c`.
pub open spec fn column_width(rows: Seq<Seq<Seq<char>>>, c: int) -> int
    decreases rows.len(),
{
    if rows.len() == 0 {
        0
    } else if c < rows.last().len() {
        most(column_width(rows.drop_last(), c), byte_len(rows.last()[c]))
    } else {
        column_width(rows.drop_last(), c)
    }
}

pub open spec fn column_widths(rows: Seq<Seq<Seq<char>>>) -> Seq<int> {
    Seq::new(column_count(rows) as nat, |c: int| column_width(rows, c))
}

/// The width of the drawn table, with its borders and the space around each cell.
pub open spec fn box_width(widths: Seq<int>) -> int
    decreases widths.len(),
{
    if widths.len() == 0 {
        1
    } else {
        box_width(widths.drop_last()) + widths.last() + 3
    }
}

pub proof fn lemma_column_count(rows: Seq<Seq<Seq<char>>>)
    ensures
        column_count(rows) >= 0,
        forall|k: int| 0 <= k < rows.len() ==> (#[trigger] rows[k]).len() <= column_count(rows),
    decreases rows.len(),
{
    if rows.len() > 0 {
        lemma_column_count(rows.drop_last());
        assert forall|k: int| 0 <= k < rows.len() implies (#[trigger] rows[k]).len()
            <= column_count(rows) by {
            if k < rows.len() - 1 {
                assert(rows[k] == rows.drop_last()[k]);
            }
        }
    }
}

fn count_columns(rows: &Vec<Vec<String>>) -> (r: usize)
    ensures
        r == column_count(grid(rows@)),
{
    let mut most_cells: usize = 0;
    let ghost g = grid(rows@);
    for k in 0..rows.len()
        invariant
            g == grid(rows@),
            most_cells == column_count(g.take(k as int)),
    {
        let ghost t = g.take(k + 1);
        assert(t.drop_last() =~= g.take(k as int));
        assert(t.last() == views(rows@[k as int]@));
        if rows[k].len() > most_cells {
            most_cells = rows[k].len();
        }
    }
    assert(g.take(g.len() as int) =~= g);
    most_cells
}

fn measure_column(rows: &Vec<Vec<String>>, c: usize) -> (r: usize)
    ensures
        r == column_width(grid(rows@), c as int),
{
    let mut width: usize = 0;
    let ghost g = grid(rows@);
    for k in 0..rows.len()
        invariant
            g == grid(rows@),
            width == column_width(g.take(k as int), c as int),
    {
        let ghost t = g.take(k + 1);
        assert(t.drop_last() =~= g.take(k as int));
        assert(t.last() == views(rows@[k as int]@));
        if c < rows[k].len() {
            let n: usize = rows[k][c].as_str().len();
            if n > width {
                width = n;
            }
        }
    }
    assert(g.take(g.len() as int) =~= g);
    width
}

fn measure_columns(rows: &Vec<Vec<String>>) -> (r: Vec<usize>)
    ensures
        ints(r@) == column_widths(grid(rows@)),
{
    let count = count_columns(rows);
    let mut out: Vec<usize> = Vec::new();
    for c in 0..count
        invariant
            out@.len() == c,
            forall|j: int| 0 <= j < c ==> (#[trigger] out@[j]) as int == column_width(grid(rows@), j),
    {
        out.push(measure_column(rows, c));
    }
    assert(ints(out@) =~= column_widths(grid(rows@)));
    out
}

proof fn lemma_box_width(widths: Seq<int>)
    requires
        forall|k: int| 0 <= k < widths.len() ==> (#[trigger] widths[k]) >= 0,
    ensures
        box_width(widths) >= 1 + 3 * widths.len(),
        forall|k: int| 0 <= k <= widths.len() ==> box_width(#[trigger] widths.take(k)) <= box_width(
            widths,
        ),
        forall|k: int| 0 <= k < widths.len() ==> (#[trigger] widths[k]) + 4 <= box_width(widths),
    decreases widths.len(),
{
    if widths.len() > 0 {
        let d = widths.drop_last();
        assert forall|k: int| 0 <= k < d.len() implies (#[trigger] d[k]) >= 0 by {
            assert(d[k] == widths[k]);
        }
        lemma_box_width(d);
        assert(widths[widths.len() - 1] >= 0);
        assert forall|k: int| 0 <= k <= widths.len() implies box_width(#[trigger] widths.take(k))
            <= box_width(widths) by {
            if k < widths.len() {
                assert(widths.take(k) =~= d.take(k));
            } else {
                assert(widths.take(k) =~= widths);
            }
        }
        assert forall|k: int| 0 <= k < widths.len() implies (#[trigger] widths[k]) + 4
            <= box_width(widths) by {
            if k < d.len() {
                assert(d[k] == widths[k]);
            }
        }
    } else {
        assert forall|k: int| 0 <= k <= widths.len() implies box_width(#[trigger] widths.take(k))
            <= box_width(widths) by {
            assert(widths.take(k) =~= widths);
        }
    }
}

fn fits(widths: &Vec<usize>, width: usize) -> (r: bool)
    ensures
        r == (box_width(ints(widths@)) <= width),
{
    let ghost w = ints(widths@);
    proof {
        lemma_box_width(w);
    }
    if width < 1 {
        return false;
    }
    let mut room: usize = width - 1;
    assert(w.take(0) =~= Seq::empty());
    for k in 0..widths.len()
        invariant
            w == ints(widths@),
            forall|j: int| 0 <= j <= w.len() ==> box_width(#[trigger] w.take(j)) <= box_width(w),
            room + box_width(w.take(k as int)) == width,
    {
        let ghost t = w.take(k + 1);
        assert(t.drop_last() =~= w.take(k as int));
        assert(t.last() == widths@[k as int] as int);
        assert(box_width(t) <= box_width(w));
        if room < 3 || room - 3 < widths[k] {
            return false;
        }
        room = room - 3 - widths[k];
    }
    assert(w.take(w.len() as int) =~= w);
    true
}

// --- Drawing ---

/// The part of a border over the first `n` columns.
pub open spec fn border_to(widths: Seq<int>, n: int, first: char, between: char) -> Seq<char>
    decreases n,
{
    if n <= 0 {
        Seq::empty()
    } else {
        border_to(widths, n - 1, first, between).push(
            if n == 1 {
                first
            } else {
                between
            },
        ) + repeated('\u{2500}', (widths[n - 1] + 2) as nat)
    }
}

pub open spec fn border(widths: Seq<int>, first: char, between: char, last: char) -> Seq<char> {
    border_to(widths, widths.len() as int, first, between).push(last)
}

/// `cell` with spaces behind it up to `w` characters.
pub open spec fn padded(cell: Seq<char>, w: int) -> Seq<char> {
    if cell.len() < w {
        cell + repeated(' ', (w - cell.len()) as nat)
    } else {
        cell
    }
}

/// The first `n` cells of a row between their bars.
pub open spec fn row_to(row: Seq<Seq<char>>, widths: Seq<int>, n: int) -> Seq<char>
    decreases n,
{
    if n <= 0 {
        "\u{2502}"@
    } else {
        row_to(row, widths, n - 1) + " "@ + padded(row[n - 1], widths[n - 1]) + " \u{2502}"@
    }
}

pub open spec fn line_added(p: PageView, line: Seq<char>) -> PageView {
    newlined(appended(p, line))
}

/// The first `n` rows; a rule divides the first row from those that follow it.
pub open spec fn rows_drawn(
    p: PageView,
    rows: Seq<Seq<Seq<char>>>,
    widths: Seq<int>,
    n: int,
) -> PageView
    decreases n,
{
    if n <= 0 {
        p
    } else {
        let row = rows[n - 1];
        let q = line_added(
            rows_drawn(p, rows, widths, n - 1),
            row_to(row, widths, row.len() as int),
        );
        if n == 1 && rows.len() > 1 {
            line_added(q, border(widths, '\u{251C}', '\u{253C}', '\u{2524}'))
        } else {
            q
        }
    }
}

pub open spec fn box_drawn(p: PageView, rows: Seq<Seq<Seq<char>>>) -> PageView {
    let widths = column_widths(rows);
    let top = line_added(p, border(widths, '\u{250C}', '\u{252C}', '\u{2510}'));
    let body = rows_drawn(top, rows, widths, rows.len() as int);
    line_added(body, border(widths, '\u{2514}', '\u{2534}', '\u{2518}'))
}

/// The first `n` cells of a row that have content, each on a line with its number.
pub open spec fn cells_listed(p: PageView, row: Seq<Seq<char>>, n: int) -> PageView
    decreases n,
{
    if n <= 0 {
        p
    } else {
        let q = cells_listed(p, row, n - 1);
        if row[n - 1].len() == 0 {
            q
        } else {
            line_added(q, decimal((n - 1) as nat) + ": "@ + row[n - 1])
        }
    }
}

/// The first `n` rows, cell by cell, each followed by an end of line.
pub open spec fn rows_listed(p: PageView, rows: Seq<Seq<Seq<char>>>, n: int) -> PageView
    decreases n,
{
    if n <= 0 {
        p
    } else {
        let row = rows[n - 1];
        newlined(cells_listed(rows_listed(p, rows, n - 1), row, row.len() as int))
    }
}

/// The table on the page.
pub open spec fn table_shown(p: PageView, rows: Seq<Seq<Seq<char>>>) -> PageView {
    if rows.len() == 0 {
        p
    } else if box_width(column_widths(rows)) <= p.width {
        box_drawn(p, rows)
    } else {
        rows_listed(p, rows, rows.len() as int)
    }
}

/// A drawn table is a rectangle: every border, and every full row whose cells are no
/// longer than their columns, is as long as the table is wide.
pub proof fn law_box_is_rectangular(
    widths: Seq<int>,
    row: Seq<Seq<char>>,
    first: char,
    between: char,
    last: char,
)
    requires
        row.len() == widths.len(),
        forall|k: int| 0 <= k < widths.len() ==> (#[trigger] row[k]).len() <= widths[k],
    ensures
        border(widths, first, between, last).len() == box_width(widths),
        row_to(row, widths, row.len() as int).len() == box_width(widths),
{
    reveal_strlit("\u{2502}");
    reveal_strlit(" ");
    reveal_strlit(" \u{2502}");
    assert(widths.take(0) =~= Seq::empty());
    assert(widths.take(widths.len() as int) =~= widths);
    lemma_lengths(widths, row, first, between, widths.len() as int);
}

proof fn lemma_lengths(widths: Seq<int>, row: Seq<Seq<char>>, first: char, between: char, n: int)
    requires
        0 <= n <= widths.len(),
        row.len() == widths.len(),
        forall|k: int| 0 <= k < widths.len() ==> (#[trigger] row[k]).len() <= widths[k],
    ensures
        border_to(widths, n, first, between).len() + 1 == box_width(widths.take(n)),
        row_to(row, widths, n).len() == box_width(widths.take(n)),
    decreases n,
{
    reveal_strlit("\u{2502}");
    reveal_strlit(" ");
    reveal_strlit(" \u{2502}");
    if n == 0 {
        assert(widths.take(0) =~= Seq::empty());
    } else {
        lemma_lengths(widths, row, first, between, n - 1);
        assert(widths.take(n).drop_last() =~= widths.take(n - 1));
        assert(row[n - 1].len() <= widths[n - 1]);
    }
}

fn draw_border(widths: &Vec<usize>, first: char, between: char, last: char) -> (r: String)
    requires
        forall|k: int| 0 <= k < widths@.len() ==> (#[trigger] widths@[k]) + 2 <= usize::MAX,
    ensures
        r@ == border(ints(widths@), first, between, last),
{
    let mut out = String::new();
    let ghost w = ints(widths@);
    for k in 0..widths.len()
        invariant
            w == ints(widths@),
            forall|j: int| 0 <= j < widths@.len() ==> (#[trigger] widths@[j]) + 2 <= usize::MAX,
            out@ == border_to(w, k as int, first, between),
    {
        if k == 0 {
            out.push(first);
        } else {
            out.push(between);
        }
        assert(widths@[k as int] + 2 <= usize::MAX);
        let bar = repeat_char('\u{2500}', widths[k] + 2);
        out.append(bar.as_str());
    }
    out.push(last);
    out
}

pub fn pad(cell: &str, w: usize) -> (r: String)
    ensures
        r@ == padded(cell@, w as int),
{
    let n: usize = chars_of(cell).len();
    let mut out = cell.to_string();
    if n < w {
        out.append(repeat_char(' ', w - n).as_str());
    }
    out
}

fn draw_row(row: &Vec<String>, widths: &Vec<usize>) -> (r: String)
    requires
        row@.len() <= widths@.len(),
    ensures
        r@ == row_to(views(row@), ints(widths@), row@.len() as int),
{
    let mut out = "\u{2502}".to_string();
    for k in 0..row.len()
        invariant
            row@.len() <= widths@.len(),
            out@ == row_to(views(row@), ints(widths@), k as int),
    {
        let cell = pad(row[k].as_str(), widths[k]);
        out.append(" ");
        out.append(cell.as_str());
        out.append(" \u{2502}");
    }
    out
}

fn add_line(ctx: &mut RenderContext, line: &str)
    ensures
        final(ctx)@ == line_added(old(ctx)@, line@),
{
    ctx.append(line);
    ctx.newline();
}

fn draw_box(rows: &Vec<Vec<String>>, widths: &Vec<usize>, ctx: &mut RenderContext)
    requires
        ints(widths@) == column_widths(grid(rows@)),
        box_width(ints(widths@)) <= usize::MAX,
    ensures
        final(ctx)@ == box_drawn(old(ctx)@, grid(rows@)),
{
    let ghost g = grid(rows@);
    let ghost w = ints(widths@);
    proof {
        lemma_box_width(w);
        lemma_column_count(g);
        assert forall|k: int| 0 <= k < widths@.len() implies (#[trigger] widths@[k]) + 2
            <= usize::MAX by {
            assert(w[k] + 4 <= box_width(w));
        }
    }
    let top = draw_border(widths, '\u{250C}', '\u{252C}', '\u{2510}');
    let rule = draw_border(widths, '\u{251C}', '\u{253C}', '\u{2524}');
    let bottom = draw_border(widths, '\u{2514}', '\u{2534}', '\u{2518}');
    add_line(ctx, top.as_str());
    let ghost p = ctx@;
    for k in 0..rows.len()
        invariant
            g == grid(rows@),
            w == ints(widths@),
            w.len() == widths@.len(),
            w == column_widths(g),
            forall|j: int| 0 <= j < g.len() ==> (#[trigger] g[j]).len() <= column_count(g),
            column_count(g) >= 0,
            rule@ == border(w, '\u{251C}', '\u{253C}', '\u{2524}'),
            ctx@ == rows_drawn(p, g, w, k as int),
    {
        assert(g[k as int] == views(rows@[k as int]@));
        assert(g[k as int].len() <= column_count(g));
        let line = draw_row(&rows[k], widths);
        add_line(ctx, line.as_str());
        if k == 0 && rows.len() > 1 {
            add_line(ctx, rule.as_str());
        }
    }
    add_line(ctx, bottom.as_str());
}

fn list_row(row: &Vec<String>, ctx: &mut RenderContext)
    ensures
        final(ctx)@ == cells_listed(old(ctx)@, views(row@), row@.len() as int),
{
    for k in 0..row.len()
        invariant
            ctx@ == cells_listed(old(ctx)@, views(row@), k as int),
    {
        if !row[k].as_str().is_empty() {
            let line = concat3(number(k).as_str(), ": ", row[k].as_str());
            add_line(ctx, line.as_str());
        }
    }
}

fn list_rows(rows: &Vec<Vec<String>>, ctx: &mut RenderContext)
    ensures
        final(ctx)@ == rows_listed(old(ctx)@, grid(rows@), rows@.len() as int),
{
    for k in 0..rows.len()
        invariant
            ctx@ == rows_listed(old(ctx)@, grid(rows@), k as int),
    {
        list_row(&rows[k], ctx);
        ctx.newline();
    }
}

/// Shows the table at node `i`.
pub fn render_table(d: &Vec<DomItem>, i: usize, ctx: &mut RenderContext)
    requires
        i < d@.len(),
    ensures
        final(ctx)@ == table_shown(old(ctx)@, table_rows(views(d@), i as int)),
{
    let rows = collect_rows(d, i);
    if rows.len() == 0 {
        return;
    }
    let widths = measure_columns(&rows);
    if fits(&widths, ctx.width) {
        draw_box(&rows, &widths, ctx);
    } else {
        list_rows(&rows, ctx);
    }
}

} // verus!
