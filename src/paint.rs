//! The meaning of painting, stated over the cell map of a canvas.
use crate::cell::Cell;
use crate::width::char_width_of;
use crossterm::style::ContentStyle;
use vstd::prelude::*;

verus! {

/// The cells of a canvas, keyed by (column, row).
pub type Cells = Map<(int, int), Cell>;

/// Whether (x, y) lies on a canvas of `w` columns and `h` rows.
pub open spec fn in_bounds(w: int, h: int, x: int, y: int) -> bool {
    0 <= x < w && 0 <= y < h
}

/// One cell write: in range it replaces the cell, out of range it changes nothing.
pub open spec fn put(cells: Cells, w: int, h: int, x: int, y: int, cell: Cell) -> Cells {
    if in_bounds(w, h, x, y) {
        cells.insert((x, y), cell)
    } else {
        cells
    }
}

/// The columns a character advances the cursor by: its width, or 0 where it has none.
pub open spec fn advance_of(c: char) -> int {
    match char_width_of(c) {
        Some(n) => n as int,
        None => 0,
    }
}

/// The columns that a text advances the cursor by: the sum of its characters' advances.
pub open spec fn text_advance(s: Seq<char>) -> int
    decreases s.len(),
{
    if s.len() == 0 {
        0
    } else {
        text_advance(s.drop_last()) + advance_of(s.last())
    }
}

/// Placeholder writes at columns `from .. to` of row `y`, left to right.
pub open spec fn fill_placeholders(cells: Cells, w: int, h: int, from: int, to: int, y: int) -> Cells
    decreases to - from,
{
    if to <= from {
        cells
    } else {
        put(fill_placeholders(cells, w, h, from, to - 1, y), w, h, to - 1, y, Cell::PlaceHolder)
    }
}

/// The result of painting a character that takes `n` columns at (x, y): nothing where the
/// column lies outside the canvas, the row is at or past the extent, or `n` is 0; else its
/// glyph cell at (x, y) and a placeholder in each of the following (n - 1) columns.
pub open spec fn paint_sized_glyph(
    cells: Cells,
    w: int,
    h: int,
    c: char,
    style: ContentStyle,
    n: int,
    x: int,
    y: int,
) -> Cells {
    if x < 0 || x >= w || y >= h || n == 0 {
        cells
    } else {
        fill_placeholders(put(cells, w, h, x, y, Cell::Content { chr: c, style }), w, h, x + 1, x + n, y)
    }
}

/// The result of painting one character at (x, y), at the width it is measured at.
pub open spec fn paint_glyph(
    cells: Cells,
    w: int,
    h: int,
    c: char,
    style: ContentStyle,
    x: int,
    y: int,
) -> Cells {
    paint_sized_glyph(cells, w, h, c, style, advance_of(c), x, y)
}

/// The result of painting a text from anchor (x, y): each character in turn, at the anchor
/// column plus the advance of the characters before it.
pub open spec fn paint_text(
    cells: Cells,
    w: int,
    h: int,
    s: Seq<char>,
    style: ContentStyle,
    x: int,
    y: int,
) -> Cells
    decreases s.len(),
{
    if s.len() == 0 {
        cells
    } else {
        paint_glyph(
            paint_text(cells, w, h, s.drop_last(), style, x, y),
            w,
            h,
            s.last(),
            style,
            x + text_advance(s.drop_last()),
            y,
        )
    }
}

/// Columns at or past the right edge may be left out of a run of placeholders.
pub proof fn lemma_fill_clip(cells: Cells, w: int, h: int, from: int, to: int, y: int)
    ensures
        fill_placeholders(cells, w, h, from, to, y) == fill_placeholders(
            cells,
            w,
            h,
            from,
            if to > w { w } else { to },
            y,
        ),
    decreases to - from,
{
    if to > w && to > from {
        lemma_fill_clip(cells, w, h, from, to - 1, y);
    }
}

/// A run of placeholders puts one in each column of the run that lies on the canvas and leaves
/// every other cell as it was.
pub proof fn lemma_fill_cells(cells: Cells, w: int, h: int, from: int, to: int, y: int)
    ensures
        forall|k: int|
            from <= k < to && #[trigger] in_bounds(w, h, k, y) ==> fill_placeholders(
                cells,
                w,
                h,
                from,
                to,
                y,
            ).contains_key((k, y)) && fill_placeholders(cells, w, h, from, to, y)[(k, y)]
                == Cell::PlaceHolder,
        forall|p: (int, int)|
            !(p.1 == y && from <= p.0 < to) ==> (#[trigger] fill_placeholders(
                cells,
                w,
                h,
                from,
                to,
                y,
            ).contains_key(p) <==> cells.contains_key(p)) && (cells.contains_key(p)
                ==> fill_placeholders(cells, w, h, from, to, y)[p] == cells[p]),
    decreases to - from,
{
    if to > from {
        lemma_fill_cells(cells, w, h, from, to - 1, y);
    }
}

/// Painting a character of width at least one at a position on the canvas writes its glyph
/// cell there and a placeholder in each of the next (width - 1) columns that lie on the canvas;
/// every cell outside that span is left as it was.
pub proof fn lemma_glyph_cells(
    cells: Cells,
    w: int,
    h: int,
    c: char,
    style: ContentStyle,
    x: int,
    y: int,
)
    requires
        in_bounds(w, h, x, y),
        advance_of(c) >= 1,
    ensures
        paint_glyph(cells, w, h, c, style, x, y).contains_key((x, y)),
        paint_glyph(cells, w, h, c, style, x, y)[(x, y)] == (Cell::Content { chr: c, style }),
        forall|k: int|
            1 <= k < advance_of(c) && x + k < w ==> #[trigger] paint_glyph(
                cells,
                w,
                h,
                c,
                style,
                x,
                y,
            ).contains_key((x + k, y)) && paint_glyph(cells, w, h, c, style, x, y)[(x + k, y)]
                == Cell::PlaceHolder,
        forall|p: (int, int)|
            !(p.1 == y && x <= p.0 < x + advance_of(c)) ==> (#[trigger] paint_glyph(
                cells,
                w,
                h,
                c,
                style,
                x,
                y,
            ).contains_key(p) <==> cells.contains_key(p)) && (cells.contains_key(p)
                ==> paint_glyph(cells, w, h, c, style, x, y)[p] == cells[p]),
{
    let glyph = Cell::Content { chr: c, style };
    let base = put(cells, w, h, x, y, glyph);
    lemma_fill_cells(base, w, h, x + 1, x + advance_of(c), y);
    assert(base.contains_key((x, y)) && base[(x, y)] == glyph);
    assert(fill_placeholders(base, w, h, x + 1, x + advance_of(c), y).contains_key((x, y)));
    assert forall|k: int| 1 <= k < advance_of(c) && x + k < w implies #[trigger] paint_glyph(
        cells,
        w,
        h,
        c,
        style,
        x,
        y,
    ).contains_key((x + k, y)) && paint_glyph(cells, w, h, c, style, x, y)[(x + k, y)]
        == Cell::PlaceHolder by {
        assert(in_bounds(w, h, x + k, y));
    }
}

/// Painting a character that has no width leaves the canvas as it was.
pub proof fn lemma_glyph_zero_width(
    cells: Cells,
    w: int,
    h: int,
    c: char,
    style: ContentStyle,
    x: int,
    y: int,
)
    requires
        advance_of(c) == 0,
    ensures
        paint_glyph(cells, w, h, c, style, x, y) == cells,
{
}

/// Painting any character at a column outside the canvas, or at a row at or past the extent,
/// leaves the canvas as it was.
pub proof fn lemma_glyph_past_edge(
    cells: Cells,
    w: int,
    h: int,
    c: char,
    style: ContentStyle,
    x: int,
    y: int,
)
    requires
        x < 0 || x >= w || y >= h,
    ensures
        paint_glyph(cells, w, h, c, style, x, y) == cells,
{
}

/// Painting a text is painting its characters one after another: the empty text changes
/// nothing, and a text with one more character paints that character after the rest, at the
/// anchor column plus the advance of the rest.
pub proof fn lemma_text_sequential(
    cells: Cells,
    w: int,
    h: int,
    s: Seq<char>,
    c: char,
    style: ContentStyle,
    x: int,
    y: int,
)
    ensures
        paint_text(cells, w, h, Seq::empty(), style, x, y) == cells,
        paint_text(cells, w, h, s.push(c), style, x, y) == paint_glyph(
            paint_text(cells, w, h, s, style, x, y),
            w,
            h,
            c,
            style,
            x + text_advance(s),
            y,
        ),
        text_advance(s.push(c)) == text_advance(s) + advance_of(c),
{
    assert(s.push(c).drop_last() =~= s);
}

proof fn lemma_overlay_assoc(a: Cells, b: Cells, c: Cells)
    ensures
        a.union_prefer_right(b).union_prefer_right(c) == a.union_prefer_right(
            b.union_prefer_right(c),
        ),
{
    assert(a.union_prefer_right(b).union_prefer_right(c) =~= a.union_prefer_right(
        b.union_prefer_right(c),
    ));
}

proof fn lemma_put_overlay(cells: Cells, w: int, h: int, x: int, y: int, cell: Cell)
    ensures
        put(cells, w, h, x, y, cell) == cells.union_prefer_right(
            put(Map::empty(), w, h, x, y, cell),
        ),
{
    assert(put(cells, w, h, x, y, cell) =~= cells.union_prefer_right(
        put(Map::empty(), w, h, x, y, cell),
    ));
}

proof fn lemma_fill_overlay(cells: Cells, w: int, h: int, from: int, to: int, y: int)
    ensures
        fill_placeholders(cells, w, h, from, to, y) == cells.union_prefer_right(
            fill_placeholders(Map::empty(), w, h, from, to, y),
        ),
    decreases to - from,
{
    if to <= from {
        assert(cells =~= cells.union_prefer_right(Map::empty()));
    } else {
        let rest = fill_placeholders(Map::empty(), w, h, from, to - 1, y);
        lemma_fill_overlay(cells, w, h, from, to - 1, y);
        lemma_put_overlay(cells.union_prefer_right(rest), w, h, to - 1, y, Cell::PlaceHolder);
        lemma_put_overlay(rest, w, h, to - 1, y, Cell::PlaceHolder);
        lemma_overlay_assoc(cells, rest, put(Map::empty(), w, h, to - 1, y, Cell::PlaceHolder));
    }
}

proof fn lemma_glyph_overlay(
    cells: Cells,
    w: int,
    h: int,
    c: char,
    style: ContentStyle,
    x: int,
    y: int,
)
    ensures
        paint_glyph(cells, w, h, c, style, x, y) == cells.union_prefer_right(
            paint_glyph(Map::empty(), w, h, c, style, x, y),
        ),
{
    if x < 0 || x >= w || y >= h || advance_of(c) == 0 {
        assert(cells =~= cells.union_prefer_right(Map::empty()));
    } else {
        let g = Cell::Content { chr: c, style };
        let one = put(Map::<(int, int), Cell>::empty(), w, h, x, y, g);
        let run = fill_placeholders(Map::empty(), w, h, x + 1, x + advance_of(c), y);
        lemma_put_overlay(cells, w, h, x, y, g);
        lemma_fill_overlay(put(cells, w, h, x, y, g), w, h, x + 1, x + advance_of(c), y);
        lemma_fill_overlay(one, w, h, x + 1, x + advance_of(c), y);
        lemma_overlay_assoc(cells, one, run);
    }
}

/// Painting a text overwrites the cells of a fixed set of positions with fixed values, whatever
/// the canvas held before: the result is the earlier cells overlaid with what the same paint
/// gives on an empty canvas.
pub proof fn lemma_text_overlay(
    cells: Cells,
    w: int,
    h: int,
    s: Seq<char>,
    style: ContentStyle,
    x: int,
    y: int,
)
    ensures
        paint_text(cells, w, h, s, style, x, y) == cells.union_prefer_right(
            paint_text(Map::empty(), w, h, s, style, x, y),
        ),
    decreases s.len(),
{
    if s.len() == 0 {
        assert(cells =~= cells.union_prefer_right(Map::empty()));
    } else {
        let col = x + text_advance(s.drop_last());
        let rest = paint_text(Map::empty(), w, h, s.drop_last(), style, x, y);
        let last = paint_glyph(Map::empty(), w, h, s.last(), style, col, y);
        lemma_text_overlay(cells, w, h, s.drop_last(), style, x, y);
        lemma_glyph_overlay(cells.union_prefer_right(rest), w, h, s.last(), style, col, y);
        lemma_glyph_overlay(rest, w, h, s.last(), style, col, y);
        lemma_overlay_assoc(cells, rest, last);
    }
}

/// Painting the same text with the same style at the same anchor a second time changes
/// nothing.
pub proof fn lemma_text_idempotent(
    cells: Cells,
    w: int,
    h: int,
    s: Seq<char>,
    style: ContentStyle,
    x: int,
    y: int,
)
    ensures
        paint_text(paint_text(cells, w, h, s, style, x, y), w, h, s, style, x, y) == paint_text(
            cells,
            w,
            h,
            s,
            style,
            x,
            y,
        ),
{
    let once = paint_text(cells, w, h, s, style, x, y);
    let e = paint_text(Map::empty(), w, h, s, style, x, y);
    lemma_text_overlay(cells, w, h, s, style, x, y);
    lemma_text_overlay(once, w, h, s, style, x, y);
    assert(cells.union_prefer_right(e).union_prefer_right(e) =~= cells.union_prefer_right(e));
}

} // verus!
