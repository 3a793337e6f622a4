use crossterm::style::{Attribute, Color, ContentStyle};
use termdraw::canvas::Grid;
use termdraw::cell::Cell;
use termdraw::drawable::{
    center_anchor, draw_glyph, draw_sized_glyph, draw_text, right_anchor, CenteredString, CenteredStringExt,
    Drawable, RightAlignedString, RightAlignedStringExt, X, Y,
};

fn red() -> ContentStyle {
    let mut s = ContentStyle::new();
    s.foreground_color = Some(Color::Red);
    s.attributes.set(Attribute::Bold);
    s
}

fn glyph(c: char, style: ContentStyle) -> Option<Cell> {
    Some(Cell::Content { chr: c, style })
}

fn row_of(g: &Grid, y: i32, w: i32) -> Vec<Option<Cell>> {
    (0..w).map(|x| g.get(x, y)).collect()
}

fn untouched(g: &Grid, w: i32, h: i32) -> bool {
    (0..h).all(|y| (0..w).all(|x| g.get(x, y).is_none()))
}

#[test]
fn styled_cell_holds_char_and_style() {
    assert_eq!(Cell::styled('x', red()), Cell::Content { chr: 'x', style: red() });
}

#[test]
fn new_grid_is_empty() {
    let g = Grid::new(4, 3);
    assert!(untouched(&g, 4, 3));
    assert_eq!(g.get(-1, 0), None);
    assert_eq!(g.get(4, 0), None);
}

#[test]
fn narrow_glyph_in_bounds() {
    let mut g = Grid::new(5, 2);
    ('a', red()).draw((2, 1), &mut g);
    assert_eq!(g.get(2, 1), glyph('a', red()));
    assert_eq!(g.get(3, 1), None);
    assert_eq!(g.get(1, 1), None);
}

#[test]
fn wide_glyph_reserves_placeholder() {
    let mut g = Grid::new(6, 2);
    ('中', red()).draw((1, 0), &mut g);
    assert_eq!(g.get(1, 0), glyph('中', red()));
    assert_eq!(g.get(2, 0), Some(Cell::PlaceHolder));
    assert_eq!(g.get(3, 0), None);
    assert_eq!(g.get(0, 0), None);
    assert_eq!(g.get(1, 1), None);
}

#[test]
fn zero_width_combining_mark_changes_nothing() {
    let mut g = Grid::new(4, 2);
    ('\u{301}', red()).draw((1, 1), &mut g);
    assert!(untouched(&g, 4, 2));
}

#[test]
fn control_char_changes_nothing() {
    let mut g = Grid::new(4, 2);
    ('\u{7}', red()).draw((0, 0), &mut g);
    ('\n', red()).draw((1, 0), &mut g);
    assert!(untouched(&g, 4, 2));
}

#[test]
fn out_of_range_position_changes_nothing() {
    let mut g = Grid::new(4, 2);
    ('a', red()).draw((4, 0), &mut g);
    ('a', red()).draw((0, 2), &mut g);
    ('中', red()).draw((7, 1), &mut g);
    ('中', red()).draw((i32::MAX, i32::MAX), &mut g);
    assert!(untouched(&g, 4, 2));
}

#[test]
fn wide_glyph_at_last_column_dangles() {
    let mut g = Grid::new(5, 1);
    ('中', red()).draw((4, 0), &mut g);
    assert_eq!(g.get(4, 0), glyph('中', red()));
    assert_eq!(g.get(3, 0), None);
    assert_eq!(g.get(5, 0), None);
}

#[test]
fn wide_glyph_left_of_canvas_changes_nothing() {
    let mut g = Grid::new(3, 1);
    draw_glyph('中', red(), -1, 0, &mut g);
    ('中', red()).draw((-1, 0), &mut g);
    ('a', red()).draw((i32::MIN, 0), &mut g);
    assert!(untouched(&g, 3, 1));
}

#[test]
fn centered_wide_text_wider_than_canvas_leaves_no_stray_placeholder() {
    let mut g = Grid::new(3, 1);
    (CenteredString::new("中中"), red()).draw(0, &mut g);
    assert_eq!(row_of(&g, 0, 3), vec![None, glyph('中', red()), Some(Cell::PlaceHolder)]);
}

#[test]
fn text_advances_by_display_width() {
    let mut g = Grid::new(8, 1);
    ("A中", red()).draw((2, 0), &mut g);
    assert_eq!(g.get(2, 0), glyph('A', red()));
    assert_eq!(g.get(3, 0), glyph('中', red()));
    assert_eq!(g.get(4, 0), Some(Cell::PlaceHolder));
    assert_eq!(g.get(5, 0), None);
}

#[test]
fn text_equals_painting_each_char_in_turn() {
    let s = "x中\u{301}y\u{7}z";
    let mut whole = Grid::new(9, 2);
    (s, red()).draw((1, 1), &mut whole);
    let mut each = Grid::new(9, 2);
    let mut col = 1;
    for c in s.chars() {
        (c, red()).draw((col, 1), &mut each);
        col += unicode_width::UnicodeWidthChar::width(c).unwrap_or(0) as i32;
    }
    assert_eq!(row_of(&whole, 1, 9), row_of(&each, 1, 9));
    assert_eq!(whole.get(5, 1), glyph('z', red()));
}

#[test]
fn text_is_clipped_per_character() {
    let mut g = Grid::new(3, 1);
    ("abcde", red()).draw((1, 0), &mut g);
    assert_eq!(row_of(&g, 0, 3), vec![None, glyph('a', red()), glyph('b', red())]);
    let mut g = Grid::new(3, 1);
    draw_text("abcde", red(), -2, 0, &mut g);
    assert_eq!(row_of(&g, 0, 3), vec![glyph('c', red()), glyph('d', red()), glyph('e', red())]);
}

#[test]
fn centered_hi_on_width_ten() {
    let mut g = Grid::new(10, 1);
    (CenteredString::new("hi"), red()).draw(0, &mut g);
    assert_eq!(g.get(4, 0), glyph('h', red()));
    assert_eq!(g.get(5, 0), glyph('i', red()));
    assert_eq!(g.get(3, 0), None);
    assert_eq!(g.get(6, 0), None);
}

#[test]
fn centering_twice_gives_same_cells() {
    let mut once = Grid::new(11, 1);
    (CenteredString::new("中ab"), red()).draw(0, &mut once);
    let mut twice = Grid::new(11, 1);
    (CenteredString::new("中ab"), red()).draw(0, &mut twice);
    (CenteredString::new("中ab"), red()).draw(0, &mut twice);
    assert_eq!(row_of(&once, 0, 11), row_of(&twice, 0, 11));
    assert_eq!(once.get(3, 0), glyph('中', red()));
}

#[test]
fn centered_without_style_uses_default() {
    let mut g = Grid::new(7, 2);
    "abc".center().draw(1, &mut g);
    assert_eq!(g.get(2, 1), glyph('a', ContentStyle::default()));
    assert_eq!(g.get(4, 1), glyph('c', ContentStyle::default()));
}

#[test]
fn centered_wider_than_canvas_is_clipped() {
    let mut g = Grid::new(2, 1);
    (CenteredString::new("abcdef"), red()).draw(0, &mut g);
    assert_eq!(row_of(&g, 0, 2), vec![glyph('c', red()), glyph('d', red())]);
}

#[test]
fn right_aligned_hello_fills_width_five() {
    let mut g = Grid::new(5, 2);
    (RightAlignedString::new("hello"), red()).draw(1, &mut g);
    let expect: Vec<Option<Cell>> = "hello".chars().map(|c| glyph(c, red())).collect();
    assert_eq!(row_of(&g, 1, 5), expect);
    assert!(row_of(&g, 0, 5).iter().all(|c| c.is_none()));
}

#[test]
fn right_aligned_without_style() {
    let mut g = Grid::new(6, 1);
    "中a".right().draw(0, &mut g);
    assert_eq!(g.get(3, 0), glyph('中', ContentStyle::default()));
    assert_eq!(g.get(4, 0), Some(Cell::PlaceHolder));
    assert_eq!(g.get(5, 0), glyph('a', ContentStyle::default()));
    assert_eq!(g.get(2, 0), None);
}

#[test]
fn anchors() {
    assert_eq!(center_anchor(10, 2), 4);
    assert_eq!(center_anchor(10, 3), 3);
    assert_eq!(center_anchor(3, 6), -2);
    assert_eq!(center_anchor(0, 1), -1);
    assert_eq!(right_anchor(5, 5), 0);
    assert_eq!(right_anchor(5, 7), -2);
    assert_eq!(right_anchor(i32::MIN, usize::MAX), i32::MIN as i128 - usize::MAX as i128);
}

#[test]
fn pinned_column_takes_row_at_draw_time() {
    let mut g = Grid::new(6, 4);
    (('q', red()), X(5)).draw(3, &mut g);
    assert_eq!(g.get(5, 3), glyph('q', red()));
}

#[test]
fn pinned_row_takes_column_at_draw_time() {
    let mut g = Grid::new(6, 4);
    (("ok", red()), Y(2)).draw(1, &mut g);
    assert_eq!(g.get(1, 2), glyph('o', red()));
    assert_eq!(g.get(2, 2), glyph('k', red()));
}

#[test]
fn later_paint_overwrites_earlier() {
    let mut g = Grid::new(4, 1);
    ('中', red()).draw((0, 0), &mut g);
    ('z', ContentStyle::default()).draw((1, 0), &mut g);
    assert_eq!(g.get(0, 0), glyph('中', red()));
    assert_eq!(g.get(1, 0), glyph('z', ContentStyle::default()));
}

#[test]
fn sized_glyph_reserves_each_further_column() {
    let mut g = Grid::new(6, 1);
    draw_sized_glyph('w', red(), 3, 1, 0, &mut g);
    assert_eq!(
        row_of(&g, 0, 6),
        vec![None, glyph('w', red()), Some(Cell::PlaceHolder), Some(Cell::PlaceHolder), None, None]
    );
}

#[test]
fn sized_glyph_of_no_width_changes_nothing() {
    let mut g = Grid::new(3, 1);
    draw_sized_glyph('w', red(), 0, 1, 0, &mut g);
    assert!(untouched(&g, 3, 1));
}

#[test]
fn sized_glyph_wider_than_canvas_is_clipped() {
    let mut g = Grid::new(4, 1);
    draw_sized_glyph('w', red(), usize::MAX, 2, 0, &mut g);
    assert_eq!(
        row_of(&g, 0, 4),
        vec![None, None, glyph('w', red()), Some(Cell::PlaceHolder)]
    );
}
