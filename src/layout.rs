use vstd::prelude::*;

use crate::buffer::{font_rect_data, Buffer};
use crate::color::Color;
use crate::font::{Font, Glyph, GlyphResult};
use crate::geometry::{in_i32, max_int, Dim, Pos};

verus! {

/// A glyph placed by a layout: where its bitmap lies, its extent, where it
/// is drawn relative to the layout origin, and the characters it stands for.
#[derive(Debug, Copy, Clone, PartialEq, Eq)]
pub struct GlyphCoord {
    pub glyph_pos: Pos,
    pub glyph_dim: Dim,
    pub offset: Pos,
    pub char1: char,
    pub char2: Option<char>,
}

impl GlyphCoord {
    pub(crate) fn new(glyph_pos: Pos, glyph_dim: Dim, offset: Pos, char1: char, char2: Option<char>) -> (r: Self)
        ensures
            r == (GlyphCoord { glyph_pos, glyph_dim, offset, char1, char2 }),
    {
        GlyphCoord { glyph_pos, glyph_dim, offset, char1, char2 }
    }
}

/// One decision of a layout: a placed glyph, or a character the font has no
/// glyph for.
#[derive(Debug, Copy, Clone, PartialEq, Eq)]
pub enum GlyphCoordResult {
    Handled(GlyphCoord),
    Unhandled(char),
}

impl GlyphCoordResult {
    pub(crate) fn handled(glyph_pos: Pos, glyph_dim: Dim, offset: Pos, char1: char, char2: Option<char>) -> (r: Self)
        ensures
            r == GlyphCoordResult::Handled(GlyphCoord { glyph_pos, glyph_dim, offset, char1, char2 }),
    {
        GlyphCoordResult::Handled(GlyphCoord::new(glyph_pos, glyph_dim, offset, char1, char2))
    }
}

/// Places `gl` at the cursor `off`: the glyph is drawn at `off` plus its own
/// offset and the cursor moves right by its width. `None` when a coordinate
/// would leave the `i32` plane.
pub open spec fn glyph_step(off: Pos, gl: Glyph, c1: char, c2: Option<char>) -> Option<(GlyphCoordResult, Pos)> {
    if gl.coords_fit() && in_i32(off.x + gl.offset.0) && in_i32(off.y + gl.offset.1) && in_i32(
        off.x + gl.size.0,
    ) {
        Some(
            (
                GlyphCoordResult::Handled(
                    GlyphCoord {
                        glyph_pos: Pos { x: gl.pos.0 as i32, y: gl.pos.1 as i32 },
                        glyph_dim: Dim { w: gl.size.0 as i32, h: gl.size.1 as i32 },
                        offset: Pos { x: (off.x + gl.offset.0) as i32, y: (off.y + gl.offset.1) as i32 },
                        char1: c1,
                        char2: c2,
                    },
                ),
                Pos { x: (off.x + gl.size.0) as i32, y: off.y },
            ),
        )
    } else {
        None
    }
}

/// One step of the straight layout from the cursor `off`.
pub open spec fn straight_step(off: Pos, g: GlyphResult) -> Option<(GlyphCoordResult, Pos)> {
    match g {
        GlyphResult::Unknown(ch) => Some((GlyphCoordResult::Unhandled(ch), off)),
        GlyphResult::Single(gl, ch) => glyph_step(off, gl, ch, None),
        GlyphResult::Double(gl, c1, c2) => glyph_step(off, gl, c1, Some(c2)),
    }
}

/// The straight layout at position `idx` of `glyphs` with cursor `off`:
/// the item it yields, and its next position and cursor. A glyph that would
/// leave the `i32` plane ends the layout.
pub open spec fn straight_next(glyphs: Seq<GlyphResult>, idx: int, off: Pos) -> (
    Option<GlyphCoordResult>,
    int,
    Pos,
) {
    if 0 <= idx < glyphs.len() {
        match straight_step(off, glyphs[idx]) {
            Some((item, off2)) => (Some(item), idx + 1, off2),
            None => (None, glyphs.len() as int, off),
        }
    } else {
        (None, idx, off)
    }
}

/// The line-wrap layout at position `idx` of `glyphs` with cursor `off`, for
/// lines `width` wide and `height` apart: the item it yields, and its next
/// position and cursor.
pub open spec fn wrap_next(glyphs: Seq<GlyphResult>, idx: int, off: Pos, width: int, height: int) -> (
    Option<GlyphCoordResult>,
    int,
    Pos,
)
    decreases glyphs.len() - idx,
{
    let (item, idx2, off2) = straight_next(glyphs, idx, off);
    match item {
        None => (None, idx2, off2),
        Some(GlyphCoordResult::Unhandled(ch)) => {
            if ch != '\n' {
                (item, idx2, off2)
            } else if in_i32(off2.y + height) && 0 <= idx < glyphs.len() {
                wrap_next(glyphs, idx + 1, Pos { x: 0, y: (off2.y + height) as i32 }, width, height)
            } else {
                (None, glyphs.len() as int, off2)
            }
        },
        Some(GlyphCoordResult::Handled(gc)) => {
            if off.x > 0 && off.x + gc.glyph_dim.w > width {
                if in_i32(off2.y + height) && in_i32(gc.offset.y + height) {
                    (
                        Some(
                            GlyphCoordResult::Handled(
                                GlyphCoord {
                                    glyph_pos: gc.glyph_pos,
                                    glyph_dim: gc.glyph_dim,
                                    offset: Pos { x: 0, y: (gc.offset.y + height) as i32 },
                                    char1: gc.char1,
                                    char2: gc.char2,
                                },
                            ),
                        ),
                        idx2,
                        Pos { x: gc.glyph_dim.w, y: (off2.y + height) as i32 },
                    )
                } else {
                    (None, glyphs.len() as int, off2)
                }
            } else {
                (item, idx2, off2)
            }
        },
    }
}

/// Every item the line-wrap layout yields from the given state until it ends.
pub open spec fn wrap_items(glyphs: Seq<GlyphResult>, idx: int, off: Pos, width: int, height: int) -> Seq<
    GlyphCoordResult,
>
    decreases glyphs.len() - idx,
{
    let (item, idx2, off2) = wrap_next(glyphs, idx, off, width, height);
    match item {
        Some(it) => if idx < idx2 <= glyphs.len() {
            seq![it].add(wrap_items(glyphs, idx2, off2, width, height))
        } else {
            seq![it]
        },
        None => Seq::empty(),
    }
}

/// The lowest vertical cursor the line-wrap layout reaches from the given
/// state until it ends.
pub open spec fn wrap_max_y(glyphs: Seq<GlyphResult>, idx: int, off: Pos, width: int, height: int) -> int
    decreases glyphs.len() - idx,
{
    let (item, idx2, off2) = wrap_next(glyphs, idx, off, width, height);
    if item is Some && idx < idx2 <= glyphs.len() {
        max_int(off.y as int, wrap_max_y(glyphs, idx2, off2, width, height))
    } else {
        max_int(off.y as int, off2.y as int)
    }
}

/// A step of the line-wrap layout that yields an item moves forward in the
/// input; one that yields nothing leaves the layout at the end of it.
pub proof fn lemma_wrap_next_progress(glyphs: Seq<GlyphResult>, idx: int, off: Pos, width: int, height: int)
    requires
        0 <= idx,
    ensures
        wrap_next(glyphs, idx, off, width, height).0 is Some ==> idx < wrap_next(
            glyphs,
            idx,
            off,
            width,
            height,
        ).1 <= glyphs.len(),
        wrap_next(glyphs, idx, off, width, height).0 is None ==> wrap_next(
            glyphs,
            idx,
            off,
            width,
            height,
        ).1 >= glyphs.len(),
    decreases glyphs.len() - idx,
{
    let (item, idx2, off2) = straight_next(glyphs, idx, off);
    if idx < glyphs.len() {
        if let Some(GlyphCoordResult::Unhandled(ch)) = item {
            if ch == '\n' && in_i32(off2.y + height) {
                lemma_wrap_next_progress(glyphs, idx + 1, Pos { x: 0, y: (off2.y + height) as i32 }, width, height);
            }
        }
    }
}

/// A line-wrap layout at the end of its input yields nothing more.
pub proof fn lemma_wrap_items_at_end(glyphs: Seq<GlyphResult>, idx: int, off: Pos, width: int, height: int)
    requires
        idx >= glyphs.len(),
    ensures
        wrap_items(glyphs, idx, off, width, height) == Seq::<GlyphCoordResult>::empty(),
{
}

/// Every item the straight layout yields from the given state until it ends.
pub open spec fn straight_items(glyphs: Seq<GlyphResult>, idx: int, off: Pos) -> Seq<GlyphCoordResult>
    decreases glyphs.len() - idx,
{
    let (item, idx2, off2) = straight_next(glyphs, idx, off);
    match item {
        Some(it) => if idx < idx2 <= glyphs.len() {
            seq![it].add(straight_items(glyphs, idx2, off2))
        } else {
            seq![it]
        },
        None => Seq::empty(),
    }
}

/// Lays glyphs out left to right on one line, from a cursor at the origin.
pub struct StraightGlyphCoordIterator {
    glyphs: Vec<GlyphResult>,
    idx: usize,
    off: Pos,
}

impl StraightGlyphCoordIterator {
    pub closed spec fn glyphs(&self) -> Seq<GlyphResult> {
        self.glyphs@
    }

    pub closed spec fn index(&self) -> int {
        self.idx as int
    }

    pub closed spec fn cursor(&self) -> Pos {
        self.off
    }

    pub fn new(glyphs: Vec<GlyphResult>) -> (r: Self)
        ensures
            r.glyphs() == glyphs@,
            r.index() == 0,
            r.cursor() == (Pos { x: 0, y: 0 }),
    {
        StraightGlyphCoordIterator { glyphs, idx: 0, off: Pos { x: 0, y: 0 } }
    }

    /// The next placed glyph or unknown character; `None` once the input is
    /// exhausted.
    pub fn next(&mut self) -> (r: Option<GlyphCoordResult>)
        ensures
            final(self).glyphs() == old(self).glyphs(),
            (r, final(self).index(), final(self).cursor()) == straight_next(
                old(self).glyphs(),
                old(self).index(),
                old(self).cursor(),
            ),
    {
        if self.idx >= self.glyphs.len() {
            return None;
        }
        let g = self.glyphs[self.idx];
        let (gl, c1, c2) = match g {
            GlyphResult::Unknown(ch) => {
                self.idx = self.idx + 1;
                return Some(GlyphCoordResult::Unhandled(ch));
            },
            GlyphResult::Single(gl, ch) => (gl, ch, None),
            GlyphResult::Double(gl, ch1, ch2) => (gl, ch1, Some(ch2)),
        };
        let fits = gl.pos.0 <= i32::MAX as u32 && gl.pos.1 <= i32::MAX as u32 && gl.size.0
            <= i32::MAX as u32 && gl.size.1 <= i32::MAX as u32;
        let ox = self.off.x as i64 + gl.offset.0 as i64;
        let oy = self.off.y as i64 + gl.offset.1 as i64;
        let nx = self.off.x as i64 + gl.size.0 as i64;
        if !fits || ox < i32::MIN as i64 || ox > i32::MAX as i64 || oy < i32::MIN as i64 || oy
            > i32::MAX as i64 || nx > i32::MAX as i64 {
            self.idx = self.glyphs.len();
            return None;
        }
        let gp = Pos { x: gl.pos.0 as i32, y: gl.pos.1 as i32 };
        let gd = Dim { w: gl.size.0 as i32, h: gl.size.1 as i32 };
        let co = Pos { x: ox as i32, y: oy as i32 };
        self.off.x = nx as i32;
        self.idx = self.idx + 1;
        Some(GlyphCoordResult::handled(gp, gd, co, c1, c2))
    }

    /// Wraps this layout into lines `width` wide and `height` apart.
    pub fn line_wrap(self, width: i32, height: i32) -> (r: LineWrapGlyphCoordIterator)
        ensures
            r.glyphs() == self.glyphs(),
            r.index() == self.index(),
            r.cursor() == self.cursor(),
            r.width() == width,
            r.height() == height,
    {
        LineWrapGlyphCoordIterator { iter: self, width, height }
    }
}

/// Lays glyphs out in lines: a glyph that would cross the right edge of a
/// line starts the next one, and a newline character moves to the next line
/// without yielding anything.
pub struct LineWrapGlyphCoordIterator {
    iter: StraightGlyphCoordIterator,
    width: i32,
    height: i32,
}

impl LineWrapGlyphCoordIterator {
    pub closed spec fn glyphs(&self) -> Seq<GlyphResult> {
        self.iter.glyphs@
    }

    pub closed spec fn index(&self) -> int {
        self.iter.idx as int
    }

    pub closed spec fn cursor(&self) -> Pos {
        self.iter.off
    }

    pub closed spec fn width(&self) -> int {
        self.width as int
    }

    pub closed spec fn height(&self) -> int {
        self.height as int
    }

    /// Every item this layout yields from its current state until it ends.
    pub open spec fn items(&self) -> Seq<GlyphCoordResult> {
        wrap_items(self.glyphs(), self.index(), self.cursor(), self.width(), self.height())
    }

    /// The next placed glyph or unknown character; `None` once the input is
    /// exhausted.
    pub fn next(&mut self) -> (r: Option<GlyphCoordResult>)
        ensures
            final(self).glyphs() == old(self).glyphs(),
            final(self).width() == old(self).width(),
            final(self).height() == old(self).height(),
            (r, final(self).index(), final(self).cursor()) == wrap_next(
                old(self).glyphs(),
                old(self).index(),
                old(self).cursor(),
                old(self).width(),
                old(self).height(),
            ),
    {
        loop
            invariant
                self.glyphs() == old(self).glyphs(),
                self.width() == old(self).width(),
                self.height() == old(self).height(),
                wrap_next(self.glyphs(), self.index(), self.cursor(), self.width(), self.height())
                    == wrap_next(
                    old(self).glyphs(),
                    old(self).index(),
                    old(self).cursor(),
                    old(self).width(),
                    old(self).height(),
                ),
            decreases self.glyphs().len() - self.index(),
        {
            let off = self.iter.off;
            let item = self.iter.next();
            match item {
                None => return None,
                Some(GlyphCoordResult::Unhandled(ch)) => {
                    if ch != '\n' {
                        return Some(GlyphCoordResult::Unhandled(ch));
                    }
                    match self.iter.off.y.checked_add(self.height) {
                        Some(ny) => {
                            self.iter.off = Pos { x: 0, y: ny };
                        },
                        None => {
                            self.iter.idx = self.iter.glyphs.len();
                            return None;
                        },
                    }
                },
                Some(GlyphCoordResult::Handled(gc)) => {
                    if off.x > 0 && off.x as i64 + gc.glyph_dim.w as i64 > self.width as i64 {
                        let ny = self.iter.off.y.checked_add(self.height);
                        let gy = gc.offset.y.checked_add(self.height);
                        if ny.is_none() || gy.is_none() {
                            self.iter.idx = self.iter.glyphs.len();
                            return None;
                        }
                        let ny = ny.unwrap();
                        let gy = gy.unwrap();
                        self.iter.off = Pos { x: gc.glyph_dim.w, y: ny };
                        return Some(
                            GlyphCoordResult::Handled(
                                GlyphCoord {
                                    glyph_pos: gc.glyph_pos,
                                    glyph_dim: gc.glyph_dim,
                                    offset: Pos { x: 0, y: gy },
                                    char1: gc.char1,
                                    char2: gc.char2,
                                },
                            ),
                        );
                    }
                    return Some(GlyphCoordResult::Handled(gc));
                },
            }
        }
    }
}

impl LineWrapGlyphCoordIterator {
    /// Runs the layout to its end and returns every item it yields.
    pub fn collect(&mut self) -> (r: Vec<GlyphCoordResult>)
        ensures
            r@ == old(self).items(),
            final(self).items() == Seq::<GlyphCoordResult>::empty(),
    {
        let mut out: Vec<GlyphCoordResult> = Vec::new();
        loop
            invariant
                out@ + self.items() == old(self).items(),
            decreases self.glyphs().len() - self.index(),
        {
            let ghost before = *self;
            let idx = self.iter.idx;
            let item = self.next();
            proof {
                lemma_wrap_next_progress(before.glyphs(), before.index(), before.cursor(), before.width(), before.height());
            }
            match item {
                Some(it) => {
                    out.push(it);
                    if !(idx < self.iter.idx && self.iter.idx <= self.iter.glyphs.len()) {
                        proof {
                            assert(false);
                        }
                        return out;
                    }
                    proof {
                        assert(before.items() == seq![it] + self.items());
                        assert(out@ + self.items() == old(self).items()) by {
                            assert(out@ + self.items() =~= (out@.drop_last() + seq![it]) + self.items());
                        }
                    }
                },
                None => {
                    proof {
                        assert(out@ =~= out@ + before.items());
                        lemma_wrap_items_at_end(self.glyphs(), self.index(), self.cursor(), self.width(), self.height());
                    }
                    return out;
                },
            }
        }
    }
}

/// The height a text needs when laid out in lines `line_width` wide and
/// `line_height` apart: the lowest vertical cursor the layout reaches, plus
/// one line.
pub fn wrapped_height(glyphs: Vec<GlyphResult>, line_width: i32, line_height: i32) -> (r: i64)
    ensures
        r == wrap_max_y(glyphs@, 0, Pos { x: 0, y: 0 }, line_width as int, line_height as int)
            + line_height,
{
    let mut it = StraightGlyphCoordIterator::new(glyphs).line_wrap(line_width, line_height);
    let mut max_y: i32 = 0;
    loop
        invariant
            it.width() == line_width,
            it.height() == line_height,
            it.glyphs() == glyphs@,
            max_int(max_y as int, wrap_max_y(it.glyphs(), it.index(), it.cursor(), line_width as int, line_height as int))
                == wrap_max_y(glyphs@, 0, Pos { x: 0, y: 0 }, line_width as int, line_height as int),
        decreases it.glyphs().len() - it.index(),
    {
        let y = it.iter.off.y;
        let idx = it.iter.idx;
        let item = it.next();
        if y > max_y {
            max_y = y;
        }
        if item.is_none() || !(idx < it.iter.idx && it.iter.idx <= it.iter.glyphs.len()) {
            if it.iter.off.y > max_y {
                max_y = it.iter.off.y;
            }
            return max_y as i64 + line_height as i64;
        }
    }
}

/// The grid `data` of extent `dim` after `item` is drawn at `loc`: a placed
/// glyph is drawn at `loc` plus its offset; an unknown character draws nothing.
pub open spec fn item_drawn(
    data: Seq<Color>,
    dim: Dim,
    item: GlyphCoordResult,
    loc: Pos,
    font: &Font,
    color: Color,
) -> Seq<Color> {
    match item {
        GlyphCoordResult::Handled(gc) => if in_i32(gc.offset.x + loc.x) && in_i32(gc.offset.y + loc.y) {
            font_rect_data(
                data,
                dim,
                Pos { x: (gc.offset.x + loc.x) as i32, y: (gc.offset.y + loc.y) as i32 },
                font,
                gc.glyph_pos,
                gc.glyph_dim,
                color,
            )
        } else {
            data
        },
        GlyphCoordResult::Unhandled(_) => data,
    }
}

/// The grid `data` after each of `items` is drawn in turn.
pub open spec fn items_drawn(
    data: Seq<Color>,
    dim: Dim,
    items: Seq<GlyphCoordResult>,
    loc: Pos,
    font: &Font,
    color: Color,
) -> Seq<Color>
    decreases items.len(),
{
    if items.len() == 0 {
        data
    } else {
        items_drawn(item_drawn(data, dim, items[0], loc, font, color), dim, items.drop_first(), loc, font, color)
    }
}

impl LineWrapGlyphCoordIterator {
    /// Runs the layout to its end and draws each placed glyph of `font` on
    /// `buffer` at `loc` plus its offset, in `color`. Unknown characters are
    /// skipped.
    pub fn draw_each(&mut self, buffer: &mut Buffer, loc: Pos, font: &Font, color: Color)
        requires
            old(buffer).wf(),
        ensures
            final(buffer).wf(),
            final(buffer).dim == old(buffer).dim,
            final(buffer).data@ == items_drawn(old(buffer).data@, old(buffer).dim, old(self).items(), loc, font, color),
            final(self).items() == Seq::<GlyphCoordResult>::empty(),
    {
        loop
            invariant
                buffer.wf(),
                buffer.dim == old(buffer).dim,
                items_drawn(buffer.data@, buffer.dim, self.items(), loc, font, color) == items_drawn(
                    old(buffer).data@,
                    old(buffer).dim,
                    old(self).items(),
                    loc,
                    font,
                    color,
                ),
            decreases self.glyphs().len() - self.index(),
        {
            let ghost before = *self;
            let ghost data0 = buffer.data@;
            let idx = self.iter.idx;
            let item = self.next();
            proof {
                lemma_wrap_next_progress(before.glyphs(), before.index(), before.cursor(), before.width(), before.height());
            }
            match item {
                Some(it) => {
                    if let GlyphCoordResult::Handled(gc) = it {
                        let x = gc.offset.x.checked_add(loc.x);
                        let y = gc.offset.y.checked_add(loc.y);
                        if x.is_some() && y.is_some() {
                            let at = Pos { x: x.unwrap(), y: y.unwrap() };
                            buffer.draw_font_rect(at, font, gc.glyph_pos, gc.glyph_dim, color);
                        }
                    }
                    assert(buffer.data@ == item_drawn(data0, buffer.dim, it, loc, font, color));
                    if !(idx < self.iter.idx && self.iter.idx <= self.iter.glyphs.len()) {
                        proof {
                            assert(false);
                        }
                        return ;
                    }
                    proof {
                        assert(before.items() == seq![it] + self.items());
                        assert((seq![it] + self.items()).drop_first() =~= self.items());
                        assert((seq![it] + self.items())[0] == it);
                    }
                },
                None => {
                    proof {
                        assert(before.items() == Seq::<GlyphCoordResult>::empty());
                        lemma_wrap_items_at_end(self.glyphs(), self.index(), self.cursor(), self.width(), self.height());
                    }
                    return ;
                },
            }
        }
    }
}

impl StraightGlyphCoordIterator {
    /// Every item this layout yields from its current state until it ends.
    pub open spec fn items(&self) -> Seq<GlyphCoordResult> {
        straight_items(self.glyphs(), self.index(), self.cursor())
    }

    /// Runs the layout to its end and draws each placed glyph of `font` on
    /// `buffer` at `loc` plus its offset, in `color`. Unknown characters are
    /// skipped.
    pub fn draw_each(&mut self, buffer: &mut Buffer, loc: Pos, font: &Font, color: Color)
        requires
            old(buffer).wf(),
        ensures
            final(buffer).wf(),
            final(buffer).dim == old(buffer).dim,
            final(buffer).data@ == items_drawn(old(buffer).data@, old(buffer).dim, old(self).items(), loc, font, color),
            final(self).items() == Seq::<GlyphCoordResult>::empty(),
    {
        loop
            invariant
                buffer.wf(),
                buffer.dim == old(buffer).dim,
                items_drawn(buffer.data@, buffer.dim, self.items(), loc, font, color) == items_drawn(
                    old(buffer).data@,
                    old(buffer).dim,
                    old(self).items(),
                    loc,
                    font,
                    color,
                ),
            decreases self.glyphs().len() - self.index(),
        {
            let ghost before = *self;
            let ghost data0 = buffer.data@;
            let item = self.next();
            match item {
                Some(it) => {
                    if let GlyphCoordResult::Handled(gc) = it {
                        let x = gc.offset.x.checked_add(loc.x);
                        let y = gc.offset.y.checked_add(loc.y);
                        if x.is_some() && y.is_some() {
                            let at = Pos { x: x.unwrap(), y: y.unwrap() };
                            buffer.draw_font_rect(at, font, gc.glyph_pos, gc.glyph_dim, color);
                        }
                    }
                    assert(buffer.data@ == item_drawn(data0, buffer.dim, it, loc, font, color));
                    proof {
                        assert(before.items() == seq![it] + self.items());
                        assert((seq![it] + self.items()).drop_first() =~= self.items());
                        assert((seq![it] + self.items())[0] == it);
                    }
                },
                None => {
                    proof {
                        assert(before.items() == Seq::<GlyphCoordResult>::empty());
                        assert(self.items() == Seq::<GlyphCoordResult>::empty());
                    }
                    return ;
                },
            }
        }
    }
}

/// Every glyph of `g` is a single-character glyph drawn at the cursor (no
/// render offset), with coordinates in the `i32` plane and a width in
/// `[lo, hi]`.
pub open spec fn plain_glyphs(g: Seq<GlyphResult>, lo: int, hi: int) -> bool {
    forall|i: int|
        0 <= i < g.len() ==> match #[trigger] g[i] {
            GlyphResult::Single(gl, _) => gl.offset == (0i32, 0i32) && gl.coords_fit() && lo <= gl.size.0
                <= hi,
            _ => false,
        }
}

/// The total width of the glyphs of `g` from `idx` on.
pub open spec fn widths_from(g: Seq<GlyphResult>, idx: int) -> int
    decreases g.len() - idx,
{
    if 0 <= idx < g.len() {
        match g[idx] {
            GlyphResult::Single(gl, _) => gl.size.0 + widths_from(g, idx + 1),
            GlyphResult::Double(gl, _, _) => gl.size.0 + widths_from(g, idx + 1),
            GlyphResult::Unknown(_) => widths_from(g, idx + 1),
        }
    } else {
        0
    }
}

proof fn lemma_widths_nonneg(g: Seq<GlyphResult>, idx: int)
    ensures
        widths_from(g, idx) >= 0,
    decreases g.len() - idx,
{
    if 0 <= idx < g.len() {
        lemma_widths_nonneg(g, idx + 1);
    }
}

proof fn lemma_one_line_from(g: Seq<GlyphResult>, idx: int, off: Pos, width: int, height: int)
    requires
        0 <= idx <= g.len(),
        plain_glyphs(g, 0, i32::MAX as int),
        off.y == 0,
        0 <= off.x,
        off.x + widths_from(g, idx) <= width <= i32::MAX,
    ensures
        wrap_max_y(g, idx, off, width, height) == 0,
    decreases g.len() - idx,
{
    if idx < g.len() {
        assert(g[idx] is Single);
        if let GlyphResult::Single(gl, _) = g[idx] {
            lemma_widths_nonneg(g, idx + 1);
            let off2 = Pos { x: (off.x + gl.size.0) as i32, y: 0 };
            lemma_one_line_from(g, idx + 1, off2, width, height);
        }
    }
}

/// Glyphs whose widths add up to no more than the line width stay on the
/// first line: the text is one line high.
pub proof fn lemma_wrapped_height_one_line(g: Seq<GlyphResult>, width: int, height: int)
    requires
        plain_glyphs(g, 0, i32::MAX as int),
        widths_from(g, 0) <= width <= i32::MAX,
    ensures
        wrap_max_y(g, 0, Pos { x: 0, y: 0 }, width, height) + height == height,
{
    lemma_one_line_from(g, 0, Pos { x: 0, y: 0 }, width, height);
}

proof fn lemma_one_glyph_per_line_from(g: Seq<GlyphResult>, idx: int, off: Pos, width: int, height: int)
    requires
        1 <= idx <= g.len(),
        plain_glyphs(g, width + 1, 0x3fff_ffff),
        0 <= width,
        0 <= height,
        (g.len() - 1) * height <= i32::MAX,
        0 < off.x <= 0x3fff_ffff,
        off.y == (idx - 1) * height,
    ensures
        wrap_max_y(g, idx, off, width, height) == (g.len() - 1) * height,
    decreases g.len() - idx,
{
    if idx < g.len() {
        assert(g[idx] is Single);
        assert((idx - 1) * height + height == idx * height && idx * height <= (g.len() - 1) * height
            && 0 <= (idx - 1) * height) by (nonlinear_arith)
            requires
                1 <= idx < g.len(),
                0 <= height,
        ;
        if let GlyphResult::Single(gl, _) = g[idx] {
            let off2 = Pos { x: gl.size.0 as i32, y: (idx * height) as i32 };
            lemma_one_glyph_per_line_from(g, idx + 1, off2, width, height);
        }
    }
}

/// Glyphs each wider than the line take a line each: `n` glyphs are `n`
/// lines high.
pub proof fn lemma_wrapped_height_one_glyph_per_line(g: Seq<GlyphResult>, width: int, height: int)
    requires
        1 <= g.len(),
        plain_glyphs(g, width + 1, 0x3fff_ffff),
        0 <= width,
        0 <= height,
        (g.len() - 1) * height <= i32::MAX,
    ensures
        wrap_max_y(g, 0, Pos { x: 0, y: 0 }, width, height) + height == g.len() * height,
{
    assert(g[0] is Single);
    assert(0 <= (g.len() - 1) * height) by (nonlinear_arith)
        requires
            1 <= g.len(),
            0 <= height,
    ;
    if let GlyphResult::Single(gl, _) = g[0] {
        lemma_one_glyph_per_line_from(g, 1, Pos { x: gl.size.0 as i32, y: 0 }, width, height);
    }
    assert((g.len() - 1) * height + height == g.len() * height) by (nonlinear_arith);
}

/// The line-wrap layout is a function of its input: two runs over the same
/// glyphs with the same line extent yield the same items.
pub proof fn lemma_wrap_layout_deterministic(
    a: LineWrapGlyphCoordIterator,
    b: LineWrapGlyphCoordIterator,
)
    requires
        a.glyphs() == b.glyphs(),
        a.index() == b.index(),
        a.cursor() == b.cursor(),
        a.width() == b.width(),
        a.height() == b.height(),
    ensures
        a.items() == b.items(),
{
}

} // verus!
