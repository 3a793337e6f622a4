//! The drawable protocol and its implementations for glyphs, texts and positioned wrappers.
use crate::canvas::CanvasLike;
use crate::cell::Cell;
use crate::paint::{
    fill_placeholders, lemma_fill_clip, lemma_text_idempotent, paint_glyph, paint_sized_glyph,
    paint_text, put, text_advance, Cells,
};
use crate::width::{char_width, neutral_style, neutral_style_of, str_width, str_width_of};
use crossterm::style::ContentStyle;
use vstd::prelude::*;

verus! {

/// A (column, row) position on a canvas.
pub type Dims = (i32, i32);

/// The first column past the reach of an `i32` position.
pub const COLUMN_LIMIT: i128 = 0x8000_0000;

/// Anything that can paint itself onto a canvas at a position of type `Pos`.
pub trait Drawable {
    type Pos;

    /// Whether painting at `pos` may turn the cells `before` of a canvas with `w` columns and
    /// `h` rows into `after`.
    spec fn paints(&self, pos: Self::Pos, w: int, h: int, before: Cells, after: Cells) -> bool;

    /// Paints `self` at `pos` onto `frame`.
    fn draw<C: CanvasLike>(&self, pos: Self::Pos, frame: &mut C)
        requires
            old(frame).valid(),
        ensures
            final(frame).valid(),
            final(frame).width_spec() == old(frame).width_spec(),
            final(frame).height_spec() == old(frame).height_spec(),
            self.paints(
                pos,
                old(frame).width_spec(),
                old(frame).height_spec(),
                old(frame).cells(),
                final(frame).cells(),
            ),
    ;
}

/// Paints one character at column `x` of row `y`: its glyph cell and a placeholder for each
/// further column it covers, unless the column lies outside the canvas, the row is at or past
/// the extent, or the character has no width.
pub fn draw_glyph<C: CanvasLike>(c: char, style: ContentStyle, x: i128, y: i32, frame: &mut C)
    requires
        old(frame).valid(),
    ensures
        final(frame).valid(),
        final(frame).width_spec() == old(frame).width_spec(),
        final(frame).height_spec() == old(frame).height_spec(),
        final(frame).cells() == paint_glyph(
            old(frame).cells(),
            old(frame).width_spec(),
            old(frame).height_spec(),
            c,
            style,
            x as int,
            y as int,
        ),
{
    let width: usize = match char_width(c) {
        Some(n) => n,
        None => 0,
    };
    draw_sized_glyph(c, style, width, x, y, frame);
}

/// Paints a character that takes `width` columns at column `x` of row `y`: its glyph cell and a
/// placeholder for each further column it covers, unless the column lies outside the canvas,
/// the row is at or past the extent, or `width` is 0. Nothing is written outside the canvas.
pub fn draw_sized_glyph<C: CanvasLike>(
    c: char,
    style: ContentStyle,
    width: usize,
    x: i128,
    y: i32,
    frame: &mut C,
)
    requires
        old(frame).valid(),
    ensures
        final(frame).valid(),
        final(frame).width_spec() == old(frame).width_spec(),
        final(frame).height_spec() == old(frame).height_spec(),
        final(frame).cells() == paint_sized_glyph(
            old(frame).cells(),
            old(frame).width_spec(),
            old(frame).height_spec(),
            c,
            style,
            width as int,
            x as int,
            y as int,
        ),
{
    let (w, h) = frame.size();
    if x < 0 || x >= w as i128 || y >= h {
        return;
    }
    if width == 0 {
        return;
    }
    frame.set((x as i32, y), Cell::styled(c, style));
    let ghost base = frame.cells();
    let ghost glyph = Cell::Content { chr: c, style };
    assert(base == put(old(frame).cells(), w as int, h as int, x as int, y as int, glyph));
    let reach: i128 = x + width as i128;
    let start: i128 = x + 1;
    let stop: i128 = if reach > w as i128 { w as i128 } else { reach };
    proof {
        lemma_fill_clip(base, w as int, h as int, x + 1, reach as int, y as int);
    }
    let mut col: i128 = start;
    while col < stop
        invariant
            0 <= start <= col,
            col <= stop || col == start,
            stop <= w,
            frame.valid(),
            frame.width_spec() == w,
            frame.height_spec() == h,
            frame.cells() == fill_placeholders(
                base,
                w as int,
                h as int,
                start as int,
                col as int,
                y as int,
            ),
        decreases stop - col,
    {
        frame.set((col as i32, y), Cell::PlaceHolder);
        col = col + 1;
    }
}

/// Paints the characters of `s` left to right from column `x` of row `y`, each one at `x` plus
/// the advance of those before it.
pub fn draw_text<C: CanvasLike>(s: &str, style: ContentStyle, x: i128, y: i32, frame: &mut C)
    requires
        old(frame).valid(),
    ensures
        final(frame).valid(),
        final(frame).width_spec() == old(frame).width_spec(),
        final(frame).height_spec() == old(frame).height_spec(),
        final(frame).cells() == paint_text(
            old(frame).cells(),
            old(frame).width_spec(),
            old(frame).height_spec(),
            s@,
            style,
            x as int,
            y as int,
        ),
{
    broadcast use vstd::string::axiom_spec_iter;

    let ghost w = frame.width_spec();
    let ghost h = frame.height_spec();
    let ghost start = frame.cells();
    let ghost t = s@;
    let (cw, _ch) = frame.size();
    let mut cursor: i128 = if x > COLUMN_LIMIT { COLUMN_LIMIT } else { x };
    assert(t.take(0) =~= Seq::<char>::empty());
    for chr in it: s.chars()
        invariant
            it.seq() == t,
            frame.valid(),
            frame.width_spec() == w,
            frame.height_spec() == h,
            w == cw,
            frame.cells() == paint_text(start, w, h, t.take(it.index() as int), style, x as int, y as int),
            cursor <= COLUMN_LIMIT,
            cursor == x + text_advance(t.take(it.index() as int)) || (cursor == COLUMN_LIMIT
                && x + text_advance(t.take(it.index() as int)) >= COLUMN_LIMIT),
    {
        let ghost k = it.index() as int;
        assert(t.take(k + 1).drop_last() =~= t.take(k));
        assert(t.take(k + 1).last() == chr);
        if cursor < COLUMN_LIMIT {
            draw_glyph(chr, style, cursor, y, frame);
        }
        let a: usize = match char_width(chr) {
            Some(n) => n,
            None => 0,
        };
        if cursor < COLUMN_LIMIT {
            let next: i128 = cursor + a as i128;
            cursor = if next > COLUMN_LIMIT { COLUMN_LIMIT } else { next };
        }
    }
    assert(t.take(t.len() as int) =~= t);
}

impl Drawable for (char, ContentStyle) {
    type Pos = Dims;

    open spec fn paints(&self, pos: Dims, w: int, h: int, before: Cells, after: Cells) -> bool {
        after == paint_glyph(before, w, h, self.0, self.1, pos.0 as int, pos.1 as int)
    }

    fn draw<C: CanvasLike>(&self, pos: Dims, frame: &mut C) {
        draw_glyph(self.0, self.1, pos.0 as i128, pos.1, frame);
    }
}

impl<'a> Drawable for (&'a str, ContentStyle) {
    type Pos = Dims;

    open spec fn paints(&self, pos: Dims, w: int, h: int, before: Cells, after: Cells) -> bool {
        after == paint_text(before, w, h, self.0@, self.1, pos.0 as int, pos.1 as int)
    }

    fn draw<C: CanvasLike>(&self, pos: Dims, frame: &mut C) {
        draw_text(self.0, self.1, pos.0 as i128, pos.1, frame);
    }
}

/// The anchor column that centres a text of `text_width` columns on a canvas of `width`
/// columns: half the spare room, rounded down.
pub open spec fn center_column(width: int, text_width: int) -> int {
    (width - text_width) / 2
}

/// The anchor column that makes a text of `text_width` columns end at the right edge of a
/// canvas of `width` columns.
pub open spec fn right_column(width: int, text_width: int) -> int {
    width - text_width
}

/// The anchor column of a centred text; negative where the text is wider than the canvas.
pub fn center_anchor(width: i32, text_width: usize) -> (r: i128)
    ensures
        r == center_column(width as int, text_width as int),
{
    let d: i128 = width as i128 - text_width as i128;
    if d >= 0 {
        d / 2
    } else {
        let r: i128 = -((1 - d) / 2);
        assert(r == d / 2) by (nonlinear_arith)
            requires
                d < 0,
                r == -((1 - d) / 2),
        ;
        r
    }
}

/// The anchor column of a right-aligned text; negative where the text is wider than the canvas.
pub fn right_anchor(width: i32, text_width: usize) -> (r: i128)
    ensures
        r == right_column(width as int, text_width as int),
{
    width as i128 - text_width as i128
}

/// A text painted centred on the row it is drawn at.
#[derive(Clone, Copy)]
pub struct CenteredString<'a>(&'a str);

impl<'a> CenteredString<'a> {
    /// The characters of the text.
    pub closed spec fn text(&self) -> Seq<char> {
        self.0@
    }

    /// Wraps `s` for centred painting.
    pub fn new(s: &'a str) -> (r: Self)
        ensures
            r.text() == s@,
    {
        Self(s)
    }
}

impl<'a> Drawable for (CenteredString<'a>, ContentStyle) {
    type Pos = i32;

    open spec fn paints(&self, y: i32, w: int, h: int, before: Cells, after: Cells) -> bool {
        let t = self.0.text();
        after == paint_text(before, w, h, t, self.1, center_column(w, str_width_of(t) as int), y as int)
    }

    fn draw<C: CanvasLike>(&self, y: i32, frame: &mut C) {
        let (w, _) = frame.size();
        let x = center_anchor(w, str_width(self.0.0));
        draw_text(self.0.0, self.1, x, y, frame);
    }
}

impl<'a> Drawable for CenteredString<'a> {
    type Pos = i32;

    /// Painted as with a style given, in the neutral style.
    open spec fn paints(&self, y: i32, w: int, h: int, before: Cells, after: Cells) -> bool {
        (*self, neutral_style_of(())).paints(y, w, h, before, after)
    }

    fn draw<C: CanvasLike>(&self, y: i32, frame: &mut C) {
        let styled = (*self, neutral_style());
        styled.draw(y, frame);
    }
}

/// Turns a text into one painted centred.
pub trait CenteredStringExt<'a> {
    /// The characters of the text.
    spec fn chars_of(&self) -> Seq<char>;

    /// The text, to be painted centred.
    fn center(self) -> (r: CenteredString<'a>)
        ensures
            r.text() == self.chars_of(),
    ;
}

impl<'a> CenteredStringExt<'a> for &'a str {
    open spec fn chars_of(&self) -> Seq<char> {
        (*self)@
    }

    fn center(self) -> (r: CenteredString<'a>) {
        CenteredString::new(self)
    }
}

/// A text painted so that it ends at the right edge of the row it is drawn at.
#[derive(Clone, Copy)]
pub struct RightAlignedString<'a>(&'a str);

impl<'a> RightAlignedString<'a> {
    /// The characters of the text.
    pub closed spec fn text(&self) -> Seq<char> {
        self.0@
    }

    /// Wraps `s` for right-aligned painting.
    pub fn new(s: &'a str) -> (r: Self)
        ensures
            r.text() == s@,
    {
        Self(s)
    }
}

impl<'a> Drawable for (RightAlignedString<'a>, ContentStyle) {
    type Pos = i32;

    open spec fn paints(&self, y: i32, w: int, h: int, before: Cells, after: Cells) -> bool {
        let t = self.0.text();
        after == paint_text(before, w, h, t, self.1, right_column(w, str_width_of(t) as int), y as int)
    }

    fn draw<C: CanvasLike>(&self, y: i32, frame: &mut C) {
        let (w, _) = frame.size();
        let x = right_anchor(w, str_width(self.0.0));
        draw_text(self.0.0, self.1, x, y, frame);
    }
}

impl<'a> Drawable for RightAlignedString<'a> {
    type Pos = i32;

    /// Painted as with a style given, in the neutral style.
    open spec fn paints(&self, y: i32, w: int, h: int, before: Cells, after: Cells) -> bool {
        (*self, neutral_style_of(())).paints(y, w, h, before, after)
    }

    fn draw<C: CanvasLike>(&self, y: i32, frame: &mut C) {
        let styled = (*self, neutral_style());
        styled.draw(y, frame);
    }
}

/// Turns a text into one painted right-aligned.
pub trait RightAlignedStringExt<'a> {
    /// The characters of the text.
    spec fn chars_of(&self) -> Seq<char>;

    /// The text, to be painted right-aligned.
    fn right(self) -> (r: RightAlignedString<'a>)
        ensures
            r.text() == self.chars_of(),
    ;
}

impl<'a> RightAlignedStringExt<'a> for &'a str {
    open spec fn chars_of(&self) -> Seq<char> {
        (*self)@
    }

    fn right(self) -> (r: RightAlignedString<'a>) {
        RightAlignedString::new(self)
    }
}

/// A column fixed for a drawable whose row is given at draw time.
pub struct X(pub i32);

/// A row fixed for a drawable whose column is given at draw time.
pub struct Y(pub i32);

impl<D: Drawable<Pos = Dims>> Drawable for (D, X) {
    type Pos = i32;

    open spec fn paints(&self, row: i32, w: int, h: int, before: Cells, after: Cells) -> bool {
        self.0.paints((self.1.0, row), w, h, before, after)
    }

    fn draw<C: CanvasLike>(&self, row: i32, frame: &mut C) {
        self.0.draw((self.1.0, row), frame);
    }
}

impl<D: Drawable<Pos = Dims>> Drawable for (D, Y) {
    type Pos = i32;

    open spec fn paints(&self, column: i32, w: int, h: int, before: Cells, after: Cells) -> bool {
        self.0.paints((column, self.1.0), w, h, before, after)
    }

    fn draw<C: CanvasLike>(&self, column: i32, frame: &mut C) {
        self.0.draw((column, self.1.0), frame);
    }
}

/// Centring is stable on an unchanged canvas width: two centred paints of the same text and
/// style onto the same cells use the same anchor column and give the same cells, and a second
/// centred paint right after the first changes nothing.
pub proof fn lemma_centering_stable(
    text: CenteredString,
    style: ContentStyle,
    row: i32,
    w: int,
    h: int,
    before: Cells,
    first: Cells,
    second: Cells,
)
    requires
        (text, style).paints(row, w, h, before, first),
        (text, style).paints(row, w, h, before, second),
    ensures
        first == second,
        forall|again: Cells|
            #[trigger] (text, style).paints(row, w, h, first, again) ==> again == first,
        first == paint_text(
            before,
            w,
            h,
            text.text(),
            style,
            center_column(w, str_width_of(text.text()) as int),
            row as int,
        ),
{
    let t = text.text();
    lemma_text_idempotent(before, w, h, t, style, center_column(w, str_width_of(t) as int), row as int);
}

} // verus!
