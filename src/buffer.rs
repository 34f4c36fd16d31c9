use vstd::prelude::*;

use crate::color::Color;
use crate::font::{Font, Glyph};
use crate::geometry::{max_int, min_int, Area, Dim, Pos, Rect};

verus! {

/// Row-major position of the pixel `(x, y)` in a grid `w` pixels wide.
pub open spec fn idx(w: int, x: int, y: int) -> int {
    y * w + x
}

/// `(x, y)` lies in the box `[x1, x2) x [y1, y2)`.
pub open spec fn in_box(x1: int, y1: int, x2: int, y2: int, x: int, y: int) -> bool {
    x1 <= x < x2 && y1 <= y < y2
}

/// `(x, y)` lies in the box and comes before the cursor `(cx, cy)` in row-major order.
pub open spec fn visited(x1: int, y1: int, x2: int, y2: int, cx: int, cy: int, x: int, y: int) -> bool {
    in_box(x1, y1, x2, y2, x, y) && (y < cy || (y == cy && x < cx))
}

pub proof fn lemma_idx_bounds(w: int, h: int, x: int, y: int)
    requires
        0 <= x < w,
        0 <= y < h,
    ensures
        0 <= idx(w, x, y) < w * h,
        idx(w, x, y) <= w * h - w + x,
{
    assert(0 <= y * w + x < w * h && y * w + x <= w * h - w + x) by (nonlinear_arith)
        requires
            0 <= x < w,
            0 <= y < h,
    ;
}

pub proof fn lemma_idx_injective(w: int, x1: int, y1: int, x2: int, y2: int)
    requires
        0 <= x1 < w,
        0 <= x2 < w,
        idx(w, x1, y1) == idx(w, x2, y2),
    ensures
        x1 == x2,
        y1 == y2,
{
    if y1 < y2 {
        assert(y1 * w + x1 < y2 * w + x2) by (nonlinear_arith)
            requires
                0 <= x1 < w,
                0 <= x2,
                y1 < y2,
        ;
    } else if y2 < y1 {
        assert(y2 * w + x2 < y1 * w + x1) by (nonlinear_arith)
            requires
                0 <= x2 < w,
                0 <= x1,
                y2 < y1,
        ;
    }
}

/// Writing one pixel of a grid changes that pixel alone.
pub proof fn lemma_set_pixel(s: Seq<Color>, w: int, h: int, x0: int, y0: int, v: Color)
    requires
        s.len() == w * h,
        0 <= x0 < w,
        0 <= y0 < h,
    ensures
        0 <= idx(w, x0, y0) < s.len(),
        forall|x: int, y: int|
            0 <= x < w && 0 <= y < h ==> #[trigger] s.update(idx(w, x0, y0), v)[idx(w, x, y)] == if x
                == x0 && y == y0 {
                v
            } else {
                s[idx(w, x, y)]
            },
{
    lemma_idx_bounds(w, h, x0, y0);
    assert forall|x: int, y: int| 0 <= x < w && 0 <= y < h implies #[trigger] s.update(
        idx(w, x0, y0),
        v,
    )[idx(w, x, y)] == if x == x0 && y == y0 {
        v
    } else {
        s[idx(w, x, y)]
    } by {
        lemma_idx_bounds(w, h, x, y);
        if idx(w, x, y) == idx(w, x0, y0) {
            lemma_idx_injective(w, x, y, x0, y0);
        }
    }
}

/// An owned grid of colors, row-major, `dim.w * dim.h` pixels.
#[derive(Debug, Clone, PartialEq, Eq, Default)]
pub struct Buffer {
    pub data: Vec<Color>,
    pub dim: Dim,
}

/// Where a composition lands. The source box is cut to `src_bounds`; the
/// result, placed with its first pixel at `pos`, is cut to a destination of
/// extent `dst_dim`. Returns the part of the source that remains and the
/// destination position of its first pixel.
pub open spec fn clip_apply(dst_dim: Dim, src_bounds: Area, src_area: Area, pos: Pos) -> Option<(Area, Pos)> {
    match src_area.intersection_spec(src_bounds) {
        None => None,
        Some(s) => {
            let x1 = max_int(pos.x as int, 0);
            let y1 = max_int(pos.y as int, 0);
            let x2 = min_int(pos.x + (s.pos2.x - s.pos1.x), dst_dim.w as int);
            let y2 = min_int(pos.y + (s.pos2.y - s.pos1.y), dst_dim.h as int);
            if x1 < x2 && y1 < y2 {
                Some(
                    (
                        Area {
                            pos1: Pos {
                                x: (s.pos1.x + (x1 - pos.x)) as i32,
                                y: (s.pos1.y + (y1 - pos.y)) as i32,
                            },
                            pos2: Pos {
                                x: (s.pos1.x + (x2 - pos.x)) as i32,
                                y: (s.pos1.y + (y2 - pos.y)) as i32,
                            },
                        },
                        Pos { x: x1 as i32, y: y1 as i32 },
                    ),
                )
            } else {
                None
            }
        },
    }
}

impl Buffer {
    /// The extent is non-negative and the grid holds exactly `w * h` pixels.
    pub open spec fn wf(&self) -> bool {
        self.dim.w >= 0 && self.dim.h >= 0 && self.data@.len() == self.dim.w * self.dim.h
    }

    pub open spec fn in_bounds(&self, x: int, y: int) -> bool {
        0 <= x < self.dim.w && 0 <= y < self.dim.h
    }

    pub open spec fn pixel(&self, x: int, y: int) -> Color {
        self.data@[idx(self.dim.w as int, x, y)]
    }

    pub open spec fn area_spec(&self) -> Area {
        Area { pos1: Pos { x: 0, y: 0 }, pos2: Pos { x: self.dim.w, y: self.dim.h } }
    }

    /// A buffer of extent `dim` filled with opaque black.
    pub fn new(dim: Dim) -> (r: Buffer)
        requires
            dim.w >= 0,
            dim.h >= 0,
            dim.w * dim.h <= i32::MAX,
        ensures
            r.wf(),
            r.dim == dim,
            forall|x: int, y: int| r.in_bounds(x, y) ==> r.pixel(x, y) == (Color { r: 0, g: 0, b: 0, a: 255 }),
    {
        Buffer::new_cleared(dim, Color::black())
    }

    /// Whether the extent is non-negative and the grid holds `w * h` pixels.
    pub fn is_well_formed(&self) -> (r: bool)
        ensures
            r == self.wf(),
    {
        if self.dim.w < 0 || self.dim.h < 0 {
            return false;
        }
        assert(self.dim.w * self.dim.h <= 0x8000_0000int * 0x8000_0000int) by (nonlinear_arith)
            requires
                0 <= self.dim.w <= 0x7fff_ffff,
                0 <= self.dim.h <= 0x7fff_ffff,
        ;
        self.data.len() as u64 == self.dim.w as u64 * self.dim.h as u64
    }

    /// An extent whose pixels a buffer can address.
    pub open spec fn extent_fits(dim: Dim) -> bool {
        dim.w >= 0 && dim.h >= 0 && dim.w * dim.h <= i32::MAX
    }

    /// A buffer of extent `dim` filled with `color`, or `None` when the
    /// extent is negative or holds more pixels than a buffer can address.
    pub fn try_new(dim: Dim, color: Color) -> (r: Option<Buffer>)
        ensures
            (r is Some) == Buffer::extent_fits(dim),
            r matches Some(b) ==> b.wf() && b.dim == dim,
            r matches Some(b) ==> (forall|x: int, y: int| b.in_bounds(x, y) ==> b.pixel(x, y) == color),
    {
        if dim.w < 0 || dim.h < 0 {
            return None;
        }
        assert(dim.w * dim.h <= 0x8000_0000int * 0x8000_0000int) by (nonlinear_arith)
            requires
                0 <= dim.w <= 0x7fff_ffff,
                0 <= dim.h <= 0x7fff_ffff,
        ;
        if dim.w as i64 * dim.h as i64 > i32::MAX as i64 {
            return None;
        }
        Some(Buffer::new_cleared(dim, color))
    }

    /// A buffer of extent `dim` filled with `color`.
    pub fn new_cleared(dim: Dim, color: Color) -> (r: Buffer)
        requires
            dim.w >= 0,
            dim.h >= 0,
            dim.w * dim.h <= i32::MAX,
        ensures
            r.wf(),
            r.dim == dim,
            forall|x: int, y: int| r.in_bounds(x, y) ==> r.pixel(x, y) == color,
    {
        let n = (dim.w * dim.h) as usize;
        let mut data: Vec<Color> = Vec::new();
        let mut i: usize = 0;
        while i < n
            invariant
                i <= n,
                data@.len() == i,
                forall|k: int| 0 <= k < i ==> data@[k] == color,
            decreases n - i,
        {
            data.push(color);
            i = i + 1;
        }
        let r = Buffer { data, dim };
        proof {
            assert forall|x: int, y: int| r.in_bounds(x, y) implies r.pixel(x, y) == color by {
                lemma_idx_bounds(dim.w as int, dim.h as int, x, y);
            }
        }
        r
    }

    pub fn rect(&self) -> (r: Rect)
        ensures
            r == (Rect { pos: Pos { x: 0, y: 0 }, dim: self.dim }),
    {
        Rect { pos: Pos { x: 0, y: 0 }, dim: self.dim }
    }

    /// The box `[(0, 0), (w, h))` that the buffer covers.
    pub fn area(&self) -> (r: Area)
        ensures
            r == self.area_spec(),
    {
        Area { pos1: Pos { x: 0, y: 0 }, pos2: Pos { x: self.dim.w, y: self.dim.h } }
    }

    /// Overwrites every pixel with `color`.
    pub fn clear(&mut self, color: Color)
        requires
            old(self).wf(),
        ensures
            final(self).wf(),
            final(self).dim == old(self).dim,
            forall|x: int, y: int| final(self).in_bounds(x, y) ==> final(self).pixel(x, y) == color,
    {
        let n = self.data.len();
        let mut i: usize = 0;
        while i < n
            invariant
                i <= n,
                n == self.data@.len(),
                self.dim == old(self).dim,
                self.wf(),
                forall|k: int| 0 <= k < i ==> self.data@[k] == color,
            decreases n - i,
        {
            self.data[i] = color;
            i = i + 1;
        }
        proof {
            assert forall|x: int, y: int| self.in_bounds(x, y) implies self.pixel(x, y) == color by {
                lemma_idx_bounds(self.dim.w as int, self.dim.h as int, x, y);
            }
        }
    }

    /// Clips a composition: `other_area` is cut to `other_bounds`, placed
    /// with its first pixel at `pos` and cut to this buffer. Returns the part
    /// of the source that remains and where its first pixel lands, or `None`
    /// when nothing does.
    pub fn area_apply(&self, other_bounds: Area, other_area: Area, pos: Pos) -> (r: Option<(Area, Pos)>)
        ensures
            r == clip_apply(self.dim, other_bounds, other_area, pos),
    {
        let s = match other_area.intersection(other_bounds) {
            Some(s) => s,
            None => return None,
        };
        let w = s.pos2.x as i64 - s.pos1.x as i64;
        let h = s.pos2.y as i64 - s.pos1.y as i64;
        let ex = pos.x as i64 + w;
        let ey = pos.y as i64 + h;
        let x1 = if pos.x >= 0 { pos.x as i64 } else { 0 };
        let y1 = if pos.y >= 0 { pos.y as i64 } else { 0 };
        let x2 = if ex <= self.dim.w as i64 { ex } else { self.dim.w as i64 };
        let y2 = if ey <= self.dim.h as i64 { ey } else { self.dim.h as i64 };
        if x1 < x2 && y1 < y2 {
            let src = Area {
                pos1: Pos {
                    x: (s.pos1.x as i64 + (x1 - pos.x as i64)) as i32,
                    y: (s.pos1.y as i64 + (y1 - pos.y as i64)) as i32,
                },
                pos2: Pos {
                    x: (s.pos1.x as i64 + (x2 - pos.x as i64)) as i32,
                    y: (s.pos1.y as i64 + (y2 - pos.y as i64)) as i32,
                },
            };
            Some((src, Pos { x: x1 as i32, y: y1 as i32 }))
        } else {
            None
        }
    }
}

/// The box of a font rectangle drawn at `loc` with extent `sz`, cut to a
/// buffer of extent `dim`, as `(x1, y1, x2, y2)`.
pub open spec fn font_rect_box(dim: Dim, loc: Pos, sz: Dim) -> (int, int, int, int) {
    (
        max_int(loc.x as int, 0),
        max_int(loc.y as int, 0),
        min_int(loc.x + sz.w, dim.w as int),
        min_int(loc.y + sz.h, dim.h as int),
    )
}

/// A destination pixel `dst` after the font alpha at `(sx, sy)` tinted with
/// `color` is painted over it; unchanged where `(sx, sy)` is off the bitmap.
pub open spec fn glyph_pixel(dst: Color, font: &Font, color: Color, sx: int, sy: int) -> Color {
    match font.alpha_spec(sx, sy) {
        Some(a) => color.apply_alpha_spec(a).over_spec(dst),
        None => dst,
    }
}

/// `new` is `old` with the box `[d, d + extent of s)` composed from the box
/// `s` of `src` through `op(dst, src)`.
pub open spec fn composed<F: Fn(Color, Color) -> Color>(
    old: &Buffer,
    new: &Buffer,
    src: &Buffer,
    s: Area,
    d: Pos,
    op: F,
) -> bool {
    forall|x: int, y: int|
        new.in_bounds(x, y) ==> if in_box(
            d.x as int,
            d.y as int,
            d.x + s.pos2.x - s.pos1.x,
            d.y + s.pos2.y - s.pos1.y,
            x,
            y,
        ) {
            op.ensures(
                (old.pixel(x, y), src.pixel(x - d.x + s.pos1.x, y - d.y + s.pos1.y)),
                #[trigger] new.pixel(x, y),
            )
        } else {
            new.pixel(x, y) == old.pixel(x, y)
        }
}

/// The index of the in-bounds pixel `(x, y)` in a grid `w` pixels wide.
fn pixel_index(w: i32, h: i32, x: i32, y: i32) -> (r: usize)
    requires
        0 <= x < w,
        0 <= y < h,
        w * h <= usize::MAX,
    ensures
        r == idx(w as int, x as int, y as int),
        r < w * h,
{
    proof {
        lemma_idx_bounds(w as int, h as int, x as int, y as int);
    }
    y as usize * w as usize + x as usize
}

impl Buffer {
    /// Replaces each pixel of the box `[x1, x2) x [y1, y2)` by `f(pixel, x, y)`,
    /// row by row.
    pub(crate) fn paint_box<F: Fn(Color, i32, i32) -> Color>(&mut self, x1: i32, y1: i32, x2: i32, y2: i32, f: F)
        requires
            old(self).wf(),
            0 <= x1,
            0 <= y1,
            x2 <= old(self).dim.w,
            y2 <= old(self).dim.h,
            forall|c: Color, x: i32, y: i32|
                in_box(x1 as int, y1 as int, x2 as int, y2 as int, x as int, y as int)
                    ==> #[trigger] f.requires((c, x, y)),
        ensures
            final(self).wf(),
            final(self).dim == old(self).dim,
            forall|x: int, y: int|
                final(self).in_bounds(x, y) ==> if in_box(
                    x1 as int,
                    y1 as int,
                    x2 as int,
                    y2 as int,
                    x,
                    y,
                ) {
                    f.ensures((old(self).pixel(x, y), x as i32, y as i32), #[trigger] final(self).pixel(x, y))
                } else {
                    final(self).pixel(x, y) == old(self).pixel(x, y)
                },
    {
        let w = self.dim.w;
        let h = self.dim.h;
        let n = self.data.len();
        let mut y = y1;
        while y < y2
            invariant
                y1 <= y,
                y2 < y ==> y == y1,
                self.wf(),
                self.dim == old(self).dim,
                w == self.dim.w,
                h == self.dim.h,
                n == w * h,
                0 <= x1,
                0 <= y1,
                x2 <= w,
                y2 <= h,
                forall|c: Color, x: i32, y: i32|
                    in_box(x1 as int, y1 as int, x2 as int, y2 as int, x as int, y as int)
                        ==> #[trigger] f.requires((c, x, y)),
                forall|xx: int, yy: int|
                    self.in_bounds(xx, yy) ==> if visited(
                        x1 as int,
                        y1 as int,
                        x2 as int,
                        y2 as int,
                        x1 as int,
                        y as int,
                        xx,
                        yy,
                    ) {
                        f.ensures((old(self).pixel(xx, yy), xx as i32, yy as i32), #[trigger] self.pixel(xx, yy))
                    } else {
                        self.pixel(xx, yy) == old(self).pixel(xx, yy)
                    },
            decreases y2 - y,
        {
            let mut x = x1;
            while x < x2
                invariant
                    x1 <= x,
                    x2 < x ==> x == x1,
                    y1 <= y < y2,
                    self.wf(),
                    self.dim == old(self).dim,
                    w == self.dim.w,
                    h == self.dim.h,
                    n == w * h,
                    0 <= x1,
                    0 <= y1,
                    x2 <= w,
                    y2 <= h,
                    forall|c: Color, x: i32, y: i32|
                        in_box(x1 as int, y1 as int, x2 as int, y2 as int, x as int, y as int)
                            ==> #[trigger] f.requires((c, x, y)),
                    forall|xx: int, yy: int|
                        self.in_bounds(xx, yy) ==> if visited(
                            x1 as int,
                            y1 as int,
                            x2 as int,
                            y2 as int,
                            x as int,
                            y as int,
                            xx,
                            yy,
                        ) {
                            f.ensures((old(self).pixel(xx, yy), xx as i32, yy as i32), #[trigger] self.pixel(xx, yy))
                        } else {
                            self.pixel(xx, yy) == old(self).pixel(xx, yy)
                        },
                decreases x2 - x,
            {
                let i = pixel_index(w, h, x, y);
                let c = self.data[i];
                assert(c == old(self).pixel(x as int, y as int)) by {
                    assert(self.in_bounds(x as int, y as int));
                    assert(!visited(x1 as int, y1 as int, x2 as int, y2 as int, x as int, y as int, x as int, y as int));
                    assert(self.pixel(x as int, y as int) == old(self).pixel(x as int, y as int));
                }
                assert(in_box(x1 as int, y1 as int, x2 as int, y2 as int, x as int, y as int));
                let v = f(c, x, y);
                let ghost prev = *self;
                self.data[i] = v;
                proof {
                    lemma_set_pixel(prev.data@, w as int, h as int, x as int, y as int, v);
                    assert forall|xx: int, yy: int| self.in_bounds(xx, yy) implies if visited(
                        x1 as int,
                        y1 as int,
                        x2 as int,
                        y2 as int,
                        x + 1,
                        y as int,
                        xx,
                        yy,
                    ) {
                        f.ensures((old(self).pixel(xx, yy), xx as i32, yy as i32), #[trigger] self.pixel(xx, yy))
                    } else {
                        self.pixel(xx, yy) == old(self).pixel(xx, yy)
                    } by {
                        assert(self.pixel(xx, yy) == prev.data@.update(idx(w as int, x as int, y as int), v)[idx(w as int, xx, yy)]);
                        assert(prev.in_bounds(xx, yy));
                        assert(prev.pixel(xx, yy) == prev.data@[idx(w as int, xx, yy)]);
                    }
                }
                x = x + 1;
            }
            y = y + 1;
        }
    }
}

/// `new` is `old` with the box `[d, d + extent of s)` replaced by
/// `f(source pixel, destination pixel)`, the source read from the box `s` of `src`.
pub open spec fn painted(
    old: &Buffer,
    new: &Buffer,
    src: &Buffer,
    s: Area,
    d: Pos,
    f: spec_fn(Color, Color) -> Color,
) -> bool {
    forall|x: int, y: int|
        new.in_bounds(x, y) ==> #[trigger] new.pixel(x, y) == if in_box(
            d.x as int,
            d.y as int,
            d.x + s.pos2.x - s.pos1.x,
            d.y + s.pos2.y - s.pos1.y,
            x,
            y,
        ) {
            f(src.pixel(x - d.x + s.pos1.x, y - d.y + s.pos1.y), old.pixel(x, y))
        } else {
            old.pixel(x, y)
        }
}

impl Buffer {
    /// Composes the box `src_area` of `src` onto this buffer with its first
    /// pixel at `dst_pos`, as `op(destination, source)` per pixel. Both boxes
    /// must lie inside their buffers.
    pub fn apply_unchecked<F: Fn(Color, Color) -> Color>(
        &mut self,
        src: &Buffer,
        src_area: Area,
        dst_pos: Pos,
        op: F,
    )
        requires
            old(self).wf(),
            src.wf(),
            0 <= src_area.pos1.x <= src_area.pos2.x <= src.dim.w,
            0 <= src_area.pos1.y <= src_area.pos2.y <= src.dim.h,
            0 <= dst_pos.x,
            0 <= dst_pos.y,
            dst_pos.x + src_area.pos2.x - src_area.pos1.x <= old(self).dim.w,
            dst_pos.y + src_area.pos2.y - src_area.pos1.y <= old(self).dim.h,
            forall|d: Color, s: Color| #[trigger] op.requires((d, s)),
        ensures
            final(self).wf(),
            final(self).dim == old(self).dim,
            composed(old(self), final(self), src, src_area, dst_pos, op),
    {
        let x2 = dst_pos.x + (src_area.pos2.x - src_area.pos1.x);
        let y2 = dst_pos.y + (src_area.pos2.y - src_area.pos1.y);
        let ox = src_area.pos1.x - dst_pos.x;
        let oy = src_area.pos1.y - dst_pos.y;
        let sw = src.dim.w;
        let sh = src.dim.h;
        let sn = src.data.len();
        let ghost before = *self;
        self.paint_box(
            dst_pos.x,
            dst_pos.y,
            x2,
            y2,
            (|c: Color, x: i32, y: i32| -> (r: Color)
                requires
                    in_box(dst_pos.x as int, dst_pos.y as int, x2 as int, y2 as int, x as int, y as int),
                    src.wf(),
                    sw == src.dim.w,
                    sh == src.dim.h,
                    sn == sw * sh,
                    0 <= src_area.pos1.x <= src_area.pos2.x <= sw,
                    0 <= src_area.pos1.y <= src_area.pos2.y <= sh,
                    ox == src_area.pos1.x - dst_pos.x,
                    oy == src_area.pos1.y - dst_pos.y,
                    x2 == dst_pos.x + src_area.pos2.x - src_area.pos1.x,
                    y2 == dst_pos.y + src_area.pos2.y - src_area.pos1.y,
                    forall|d: Color, s: Color| #[trigger] op.requires((d, s)),
                ensures
                    op.ensures((c, src.pixel(x + ox, y + oy)), r),
                {
                    let i = pixel_index(sw, sh, x + ox, y + oy);
                    op(c, src.data[i])
                }),
        );
        proof {
            assert forall|x: int, y: int| self.in_bounds(x, y) implies if in_box(
                dst_pos.x as int,
                dst_pos.y as int,
                dst_pos.x + src_area.pos2.x - src_area.pos1.x,
                dst_pos.y + src_area.pos2.y - src_area.pos1.y,
                x,
                y,
            ) {
                op.ensures(
                    (before.pixel(x, y), src.pixel(x - dst_pos.x + src_area.pos1.x, y - dst_pos.y + src_area.pos1.y)),
                    #[trigger] self.pixel(x, y),
                )
            } else {
                self.pixel(x, y) == before.pixel(x, y)
            } by {
                if in_box(dst_pos.x as int, dst_pos.y as int, x2 as int, y2 as int, x, y) {
                    assert((x as i32) as int == x && (y as i32) as int == y);
                }
            }
        }
    }

    /// Composes the box `src_area` of `src` onto this buffer at `dst_pos`
    /// through `op(destination, source)`. The box is first cut to `src`, then
    /// moved and cut to this buffer; when nothing remains the call changes
    /// nothing.
    pub fn apply<F: Fn(Color, Color) -> Color>(&mut self, src: &Buffer, src_area: Area, dst_pos: Pos, op: F)
        requires
            old(self).wf(),
            src.wf(),
            forall|d: Color, s: Color| #[trigger] op.requires((d, s)),
        ensures
            final(self).wf(),
            final(self).dim == old(self).dim,
            clip_apply(old(self).dim, src.area_spec(), src_area, dst_pos) is None ==> final(self).data@
                == old(self).data@,
            clip_apply(old(self).dim, src.area_spec(), src_area, dst_pos) matches Some((s, d))
                ==> composed(old(self), final(self), src, s, d, op),
    {
        let (s, d) = match self.area_apply(src.area(), src_area, dst_pos) {
            Some(x) => x,
            None => return ,
        };
        self.apply_unchecked(src, s, d, op)
    }

    /// Paints the box `src_area` of `src` over this buffer at `dst_pos`.
    pub fn premultiplied_over(&mut self, src: &Buffer, src_area: Area, dst_pos: Pos)
        requires
            old(self).wf(),
            src.wf(),
        ensures
            final(self).wf(),
            final(self).dim == old(self).dim,
            clip_apply(old(self).dim, src.area_spec(), src_area, dst_pos) is None ==> final(self).data@
                == old(self).data@,
            clip_apply(old(self).dim, src.area_spec(), src_area, dst_pos) matches Some((s, d))
                ==> painted(old(self), final(self), src, s, d, |sc: Color, dc: Color| sc.over_spec(dc)),
    {
        self.apply(
            src,
            src_area,
            dst_pos,
            (|d: Color, s: Color| -> (r: Color)
                ensures
                    r == s.over_spec(d),
                { s.premultiplied_over(d) }),
        );
    }

    /// Adds the box `src_area` of `src` onto this buffer at `dst_pos`,
    /// channel by channel with saturation.
    pub fn additive_over(&mut self, src: &Buffer, src_area: Area, dst_pos: Pos)
        requires
            old(self).wf(),
            src.wf(),
        ensures
            final(self).wf(),
            final(self).dim == old(self).dim,
            clip_apply(old(self).dim, src.area_spec(), src_area, dst_pos) is None ==> final(self).data@
                == old(self).data@,
            clip_apply(old(self).dim, src.area_spec(), src_area, dst_pos) matches Some((s, d))
                ==> painted(old(self), final(self), src, s, d, |sc: Color, dc: Color| dc.additive_spec(sc)),
    {
        self.apply(
            src,
            src_area,
            dst_pos,
            (|d: Color, s: Color| -> (r: Color)
                ensures
                    r == d.additive_spec(s),
                { d.additive_over(s) }),
        );
    }
}

/// The grid `data` of extent `dim` after the font rectangle at `loc` of
/// extent `sz`, read from `glyph_loc` and tinted with `color`, is painted over it.
pub open spec fn font_rect_data(
    data: Seq<Color>,
    dim: Dim,
    loc: Pos,
    font: &Font,
    glyph_loc: Pos,
    sz: Dim,
    color: Color,
) -> Seq<Color> {
    let (x1, y1, x2, y2) = font_rect_box(dim, loc, sz);
    Seq::new(
        data.len(),
        |i: int|
            {
                let x = i % (dim.w as int);
                let y = i / (dim.w as int);
                if in_box(x1, y1, x2, y2, x, y) {
                    glyph_pixel(data[i], font, color, glyph_loc.x + x - loc.x, glyph_loc.y + y - loc.y)
                } else {
                    data[i]
                }
            },
    )
}

/// The index `i` of a grid `w` pixels wide and `h` high is the pixel
/// `(i % w, i / w)`.
pub proof fn lemma_index_to_pixel(w: int, h: int, i: int)
    requires
        0 <= i < w * h,
        0 <= w,
        0 <= h,
    ensures
        0 <= i % w < w,
        0 <= i / w < h,
        idx(w, i % w, i / w) == i,
{
    if w == 0 {
        assert(w * h == 0);
    }
    vstd::arithmetic::div_mod::lemma_fundamental_div_mod(i, w);
    vstd::arithmetic::div_mod::lemma_mod_pos_bound(i, w);
    vstd::arithmetic::div_mod::lemma_div_pos_is_pos(i, w);
    let q = i / w;
    assert(q < h) by (nonlinear_arith)
        requires
            w * q <= i,
            i < w * h,
            0 < w,
    ;
    vstd::arithmetic::mul::lemma_mul_is_commutative(w, i / w);
    vstd::arithmetic::mul::lemma_mul_is_commutative(w, h);
}

impl Buffer {
    /// `new` is `old` with the font rectangle at `loc` of extent `sz`, read
    /// from `glyph_loc` in the bitmap, tinted with `color` and painted over.
    pub open spec fn font_rect_drawn(
        old: &Buffer,
        new: &Buffer,
        loc: Pos,
        font: &Font,
        glyph_loc: Pos,
        sz: Dim,
        color: Color,
    ) -> bool {
        let (x1, y1, x2, y2) = font_rect_box(old.dim, loc, sz);
        forall|x: int, y: int|
            new.in_bounds(x, y) ==> #[trigger] new.pixel(x, y) == if in_box(x1, y1, x2, y2, x, y) {
                glyph_pixel(old.pixel(x, y), font, color, glyph_loc.x + x - loc.x, glyph_loc.y + y - loc.y)
            } else {
                old.pixel(x, y)
            }
    }

    /// Draws the part of `[loc, loc + sz)` that lies in the buffer: each pixel
    /// takes the font alpha found at the same offset from `glyph_loc` in the
    /// bitmap, tints `color` with it and paints the result over itself.
    /// Pixels whose source falls off the bitmap are left alone.
    pub fn draw_font_rect(&mut self, loc: Pos, font: &Font, glyph_loc: Pos, sz: Dim, color: Color)
        requires
            old(self).wf(),
        ensures
            final(self).wf(),
            final(self).dim == old(self).dim,
            Buffer::font_rect_drawn(old(self), final(self), loc, font, glyph_loc, sz, color),
            final(self).data@ == font_rect_data(old(self).data@, old(self).dim, loc, font, glyph_loc, sz, color),
    {
        let x1 = if loc.x >= 0 { loc.x as i64 } else { 0 };
        let y1 = if loc.y >= 0 { loc.y as i64 } else { 0 };
        let ex = loc.x as i64 + sz.w as i64;
        let ey = loc.y as i64 + sz.h as i64;
        let x2 = if ex <= self.dim.w as i64 { ex } else { self.dim.w as i64 };
        let y2 = if ey <= self.dim.h as i64 { ey } else { self.dim.h as i64 };
        let ghost before = *self;
        if x1 >= x2 || y1 >= y2 {
            proof {
                Buffer::lemma_font_rect_data(&before, self, loc, font, glyph_loc, sz, color);
            }
            return ;
        }
        let gx = glyph_loc.x as i64 - loc.x as i64;
        let gy = glyph_loc.y as i64 - loc.y as i64;
        self.paint_box(
            x1 as i32,
            y1 as i32,
            x2 as i32,
            y2 as i32,
            (|c: Color, x: i32, y: i32| -> (r: Color)
                requires
                    gx == glyph_loc.x - loc.x,
                    gy == glyph_loc.y - loc.y,
                ensures
                    r == glyph_pixel(c, font, color, glyph_loc.x + x - loc.x, glyph_loc.y + y - loc.y),
                {
                    match font.alpha_at(gx + x as i64, gy + y as i64) {
                        Some(a) => color.apply_alpha(a).premultiplied_over(c),
                        None => c,
                    }
                }),
        );
        proof {
            assert forall|x: int, y: int| self.in_bounds(x, y) implies #[trigger] self.pixel(x, y)
                == if in_box(x1 as int, y1 as int, x2 as int, y2 as int, x, y) {
                glyph_pixel(before.pixel(x, y), font, color, glyph_loc.x + x - loc.x, glyph_loc.y + y - loc.y)
            } else {
                before.pixel(x, y)
            } by {
                if in_box(x1 as int, y1 as int, x2 as int, y2 as int, x, y) {
                    assert((x as i32) as int == x && (y as i32) as int == y);
                }
            }
            Buffer::lemma_font_rect_data(&before, self, loc, font, glyph_loc, sz, color);
        }
    }

    /// The pixel-wise description of a font rectangle draw gives the whole grid.
    pub proof fn lemma_font_rect_data(
        old: &Buffer,
        new: &Buffer,
        loc: Pos,
        font: &Font,
        glyph_loc: Pos,
        sz: Dim,
        color: Color,
    )
        requires
            old.wf(),
            new.wf(),
            new.dim == old.dim,
            Buffer::font_rect_drawn(old, new, loc, font, glyph_loc, sz, color),
        ensures
            new.data@ == font_rect_data(old.data@, old.dim, loc, font, glyph_loc, sz, color),
    {
        let w = old.dim.w as int;
        let h = old.dim.h as int;
        let f = font_rect_data(old.data@, old.dim, loc, font, glyph_loc, sz, color);
        assert forall|i: int| 0 <= i < new.data@.len() implies new.data@[i] == f[i] by {
            lemma_index_to_pixel(w, h, i);
            assert(new.in_bounds(i % w, i / w));
            assert(new.pixel(i % w, i / w) == new.data@[i]);
            assert(old.pixel(i % w, i / w) == old.data@[i]);
        }
        assert(new.data@ =~= f);
    }

    /// Draws `glyph` of `font` with its top-left corner at `loc`.
    pub fn draw_glyph(&mut self, loc: Pos, font: &Font, glyph: Glyph, color: Color)
        requires
            old(self).wf(),
            glyph.coords_fit(),
        ensures
            final(self).wf(),
            final(self).dim == old(self).dim,
            Buffer::font_rect_drawn(
                old(self),
                final(self),
                loc,
                font,
                Pos { x: glyph.pos.0 as i32, y: glyph.pos.1 as i32 },
                Dim { w: glyph.size.0 as i32, h: glyph.size.1 as i32 },
                color,
            ),
    {
        let glyph_loc = Pos { x: glyph.pos.0 as i32, y: glyph.pos.1 as i32 };
        let sz = Dim { w: glyph.size.0 as i32, h: glyph.size.1 as i32 };
        self.draw_font_rect(loc, font, glyph_loc, sz, color);
    }
}

/// A source box that, placed with its first pixel at `pos`, misses the
/// destination altogether leaves nothing to compose, so `apply` and its kin
/// change nothing.
pub proof fn lemma_apply_disjoint(dst_dim: Dim, src_bounds: Area, src_area: Area, pos: Pos)
    requires
        src_area.intersection_spec(src_bounds) matches Some(s) ==> (pos.x + (s.pos2.x - s.pos1.x) <= 0
            || pos.y + (s.pos2.y - s.pos1.y) <= 0 || pos.x >= dst_dim.w || pos.y >= dst_dim.h),
    ensures
        clip_apply(dst_dim, src_bounds, src_area, pos) is None,
{
}

} // verus!
