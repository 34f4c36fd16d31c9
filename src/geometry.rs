use vstd::prelude::*;

verus! {

/// True when `v` is representable as an `i32`.
pub open spec fn in_i32(v: int) -> bool {
    i32::MIN <= v <= i32::MAX
}

pub open spec fn min_int(a: int, b: int) -> int {
    if a <= b {
        a
    } else {
        b
    }
}

pub open spec fn max_int(a: int, b: int) -> int {
    if a >= b {
        a
    } else {
        b
    }
}

/// A point on the integer plane.
#[derive(Debug, Copy, Clone, PartialEq, Eq, Structural, PartialOrd, Ord, Hash, Default)]
pub struct Pos {
    pub x: i32,
    pub y: i32,
}

/// A two-dimensional extent; it may be negative until normalized.
#[derive(Debug, Copy, Clone, PartialEq, Eq, Structural, PartialOrd, Ord, Hash, Default)]
pub struct Dim {
    pub w: i32,
    pub h: i32,
}

/// An origin and an extent.
#[derive(Debug, Copy, Clone, PartialEq, Eq, Structural, PartialOrd, Ord, Hash, Default)]
pub struct Rect {
    pub pos: Pos,
    pub dim: Dim,
}

/// The half-open box `[pos1, pos2)`.
#[derive(Debug, Copy, Clone, PartialEq, Eq, Structural, PartialOrd, Ord, Hash, Default)]
pub struct Area {
    pub pos1: Pos,
    pub pos2: Pos,
}

pub fn pos(x: i32, y: i32) -> (r: Pos)
    ensures
        r == (Pos { x, y }),
{
    Pos { x, y }
}

pub fn dim(w: i32, h: i32) -> (r: Dim)
    ensures
        r == (Dim { w, h }),
{
    Dim { w, h }
}

pub fn rect(pos: Pos, dim: Dim) -> (r: Rect)
    ensures
        r == (Rect { pos, dim }),
{
    Rect { pos, dim }
}

pub fn area(pos1: Pos, pos2: Pos) -> (r: Area)
    ensures
        r == (Area { pos1, pos2 }),
{
    Area { pos1, pos2 }
}

impl Pos {
    pub open spec fn add_fits(self, other: Pos) -> bool {
        in_i32(self.x + other.x) && in_i32(self.y + other.y)
    }

    pub open spec fn sub_fits(self, other: Pos) -> bool {
        in_i32(self.x - other.x) && in_i32(self.y - other.y)
    }

    /// Component-wise sum.
    pub fn add(self, other: Pos) -> (r: Pos)
        requires
            self.add_fits(other),
        ensures
            r.x == self.x + other.x,
            r.y == self.y + other.y,
    {
        Pos { x: self.x + other.x, y: self.y + other.y }
    }

    /// Component-wise difference.
    pub fn sub(self, other: Pos) -> (r: Pos)
        requires
            self.sub_fits(other),
        ensures
            r.x == self.x - other.x,
            r.y == self.y - other.y,
    {
        Pos { x: self.x - other.x, y: self.y - other.y }
    }

    pub fn dim(self) -> (r: Dim)
        ensures
            r == (Dim { w: self.x, h: self.y }),
    {
        Dim { w: self.x, h: self.y }
    }
}

impl Dim {
    pub open spec fn add_fits(self, other: Dim) -> bool {
        in_i32(self.w + other.w) && in_i32(self.h + other.h)
    }

    pub open spec fn sub_fits(self, other: Dim) -> bool {
        in_i32(self.w - other.w) && in_i32(self.h - other.h)
    }

    /// Component-wise sum.
    pub fn add(self, other: Dim) -> (r: Dim)
        requires
            self.add_fits(other),
        ensures
            r.w == self.w + other.w,
            r.h == self.h + other.h,
    {
        Dim { w: self.w + other.w, h: self.h + other.h }
    }

    /// Component-wise difference.
    pub fn sub(self, other: Dim) -> (r: Dim)
        requires
            self.sub_fits(other),
        ensures
            r.w == self.w - other.w,
            r.h == self.h - other.h,
    {
        Dim { w: self.w - other.w, h: self.h - other.h }
    }

    pub fn pos(self) -> (r: Pos)
        ensures
            r == (Pos { x: self.w, y: self.h }),
    {
        Pos { x: self.w, y: self.h }
    }
}

impl Rect {
    /// The far corner `pos + dim` lies in the `i32` plane.
    pub open spec fn area_fits(self) -> bool {
        in_i32(self.pos.x + self.dim.w) && in_i32(self.pos.y + self.dim.h)
    }

    /// The normalized rectangle is representable.
    pub open spec fn normalize_fits(self) -> bool {
        self.area_fits() && self.dim.w != i32::MIN && self.dim.h != i32::MIN
    }

    pub open spec fn contains_spec(self, p: Pos) -> bool {
        self.pos.x <= p.x < self.pos.x + self.dim.w && self.pos.y <= p.y < self.pos.y
            + self.dim.h
    }

    pub fn area(self) -> (r: Area)
        requires
            self.area_fits(),
        ensures
            r.pos1 == self.pos,
            r.pos2.x == self.pos.x + self.dim.w,
            r.pos2.y == self.pos.y + self.dim.h,
    {
        Area { pos1: self.pos, pos2: self.pos.add(self.dim.pos()) }
    }

    /// The same set of points with a non-negative extent.
    pub fn normalize(self) -> (r: Rect)
        requires
            self.normalize_fits(),
        ensures
            r.pos.x == min_int(self.pos.x as int, self.pos.x + self.dim.w),
            r.pos.y == min_int(self.pos.y as int, self.pos.y + self.dim.h),
            r.dim.w == if self.dim.w >= 0 {
                self.dim.w as int
            } else {
                -self.dim.w
            },
            r.dim.h == if self.dim.h >= 0 {
                self.dim.h as int
            } else {
                -self.dim.h
            },
            r.dim.w >= 0,
            r.dim.h >= 0,
    {
        let x2 = self.pos.x + self.dim.w;
        let y2 = self.pos.y + self.dim.h;
        let x = if self.pos.x <= x2 {
            self.pos.x
        } else {
            x2
        };
        let y = if self.pos.y <= y2 {
            self.pos.y
        } else {
            y2
        };
        let w = if self.dim.w >= 0 {
            self.dim.w
        } else {
            -self.dim.w
        };
        let h = if self.dim.h >= 0 {
            self.dim.h
        } else {
            -self.dim.h
        };
        Rect { pos: Pos { x, y }, dim: Dim { w, h } }
    }

    pub fn translate(self, pos: Pos) -> (r: Rect)
        requires
            self.pos.add_fits(pos),
        ensures
            r.pos.x == self.pos.x + pos.x,
            r.pos.y == self.pos.y + pos.y,
            r.dim == self.dim,
    {
        Rect { pos: self.pos.add(pos), dim: self.dim }
    }

    pub fn resize(self, dim: Dim) -> (r: Rect)
        ensures
            r == (Rect { pos: self.pos, dim }),
    {
        Rect { pos: self.pos, dim }
    }

    pub fn relocate(self, pos: Pos) -> (r: Rect)
        ensures
            r == (Rect { pos, dim: self.dim }),
    {
        Rect { pos, dim: self.dim }
    }

    /// Whether `pos` lies in `[pos, pos + dim)` on both axes.
    pub fn contains(self, pos: Pos) -> (r: bool)
        ensures
            r == self.contains_spec(pos),
    {
        let x = pos.x as i64;
        let y = pos.y as i64;
        x >= self.pos.x as i64 && x < self.pos.x as i64 + self.dim.w as i64 && y >= self.pos.y
            as i64 && y < self.pos.y as i64 + self.dim.h as i64
    }
}

impl Area {
    /// Both corners are in order, so the box may be walked.
    pub open spec fn is_normalized(self) -> bool {
        self.pos1.x <= self.pos2.x && self.pos1.y <= self.pos2.y
    }

    /// The box holds at least one point.
    pub open spec fn is_nonempty(self) -> bool {
        self.pos1.x < self.pos2.x && self.pos1.y < self.pos2.y
    }

    pub open spec fn contains_spec(self, p: Pos) -> bool {
        self.pos1.x <= p.x < self.pos2.x && self.pos1.y <= p.y < self.pos2.y
    }

    pub open spec fn normalize_spec(self) -> Area {
        Area {
            pos1: Pos {
                x: min_int(self.pos1.x as int, self.pos2.x as int) as i32,
                y: min_int(self.pos1.y as int, self.pos2.y as int) as i32,
            },
            pos2: Pos {
                x: max_int(self.pos1.x as int, self.pos2.x as int) as i32,
                y: max_int(self.pos1.y as int, self.pos2.y as int) as i32,
            },
        }
    }

    /// The box `[max(pos1), min(pos2))`, or `None` when it holds no point.
    pub open spec fn intersection_spec(self, other: Area) -> Option<Area> {
        let r = Area {
            pos1: Pos {
                x: max_int(self.pos1.x as int, other.pos1.x as int) as i32,
                y: max_int(self.pos1.y as int, other.pos1.y as int) as i32,
            },
            pos2: Pos {
                x: min_int(self.pos2.x as int, other.pos2.x as int) as i32,
                y: min_int(self.pos2.y as int, other.pos2.y as int) as i32,
            },
        };
        if r.is_nonempty() {
            Some(r)
        } else {
            None
        }
    }

    pub open spec fn rect_fits(self) -> bool {
        self.pos2.sub_fits(self.pos1)
    }

    pub fn rect(self) -> (r: Rect)
        requires
            self.rect_fits(),
        ensures
            r.pos == self.pos1,
            r.dim.w == self.pos2.x - self.pos1.x,
            r.dim.h == self.pos2.y - self.pos1.y,
    {
        Rect { pos: self.pos1, dim: self.pos2.sub(self.pos1).dim() }
    }

    /// The same box with its corners in order.
    pub fn normalize(self) -> (r: Area)
        ensures
            r == self.normalize_spec(),
            r.is_normalized(),
    {
        Area {
            pos1: Pos {
                x: if self.pos1.x <= self.pos2.x {
                    self.pos1.x
                } else {
                    self.pos2.x
                },
                y: if self.pos1.y <= self.pos2.y {
                    self.pos1.y
                } else {
                    self.pos2.y
                },
            },
            pos2: Pos {
                x: if self.pos1.x >= self.pos2.x {
                    self.pos1.x
                } else {
                    self.pos2.x
                },
                y: if self.pos1.y >= self.pos2.y {
                    self.pos1.y
                } else {
                    self.pos2.y
                },
            },
        }
    }

    /// Maps the first corner through `f1` and the second through `f2`.
    pub fn map<F1: Fn(Pos) -> Pos, F2: Fn(Pos) -> Pos>(self, f1: F1, f2: F2) -> (r: Area)
        requires
            f1.requires((self.pos1,)),
            f2.requires((self.pos2,)),
        ensures
            f1.ensures((self.pos1,), r.pos1),
            f2.ensures((self.pos2,), r.pos2),
    {
        Area { pos1: f1(self.pos1), pos2: f2(self.pos2) }
    }

    /// Maps both corners through `f`.
    pub fn map_all<F: Fn(Pos) -> Pos>(self, f: F) -> (r: Area)
        requires
            f.requires((self.pos1,)),
            f.requires((self.pos2,)),
        ensures
            f.ensures((self.pos1,), r.pos1),
            f.ensures((self.pos2,), r.pos2),
    {
        Area { pos1: f(self.pos1), pos2: f(self.pos2) }
    }

    /// The overlap of two boxes; `None` when it would be empty or inverted.
    pub fn intersection(self, other: Area) -> (r: Option<Area>)
        ensures
            r == self.intersection_spec(other),
            r matches Some(a) ==> a.is_nonempty(),
    {
        let area = Area {
            pos1: Pos {
                x: if self.pos1.x >= other.pos1.x {
                    self.pos1.x
                } else {
                    other.pos1.x
                },
                y: if self.pos1.y >= other.pos1.y {
                    self.pos1.y
                } else {
                    other.pos1.y
                },
            },
            pos2: Pos {
                x: if self.pos2.x <= other.pos2.x {
                    self.pos2.x
                } else {
                    other.pos2.x
                },
                y: if self.pos2.y <= other.pos2.y {
                    self.pos2.y
                } else {
                    other.pos2.y
                },
            },
        };
        if area.pos1.x < area.pos2.x && area.pos1.y < area.pos2.y {
            Some(area)
        } else {
            None
        }
    }
}

impl From<(i32, i32)> for Pos {
    fn from(t: (i32, i32)) -> (r: Pos) {
        Pos { x: t.0, y: t.1 }
    }
}

impl vstd::std_specs::convert::FromSpecImpl<(i32, i32)> for Pos {
    open spec fn obeys_from_spec() -> bool {
        true
    }

    open spec fn from_spec(t: (i32, i32)) -> Pos {
        Pos { x: t.0, y: t.1 }
    }
}

impl From<(i32, i32)> for Dim {
    fn from(t: (i32, i32)) -> (r: Dim) {
        Dim { w: t.0, h: t.1 }
    }
}

impl vstd::std_specs::convert::FromSpecImpl<(i32, i32)> for Dim {
    open spec fn obeys_from_spec() -> bool {
        true
    }

    open spec fn from_spec(t: (i32, i32)) -> Dim {
        Dim { w: t.0, h: t.1 }
    }
}

/// One step of a row-major walk over `a` from `cur`: the position yielded
/// and the next cursor, or `None` once the walk is over.
pub open spec fn pos_step(a: Area, cur: Pos) -> Option<(Pos, Pos)> {
    if cur.y >= a.pos2.y || cur.x >= a.pos2.x {
        None
    } else if cur.x + 1 >= a.pos2.x {
        Some((cur, Pos { x: a.pos1.x, y: (cur.y + 1) as i32 }))
    } else {
        Some((cur, Pos { x: (cur.x + 1) as i32, y: cur.y }))
    }
}

/// Walks every point of an area, left to right and top to bottom.
pub struct AreaPosIter {
    area: Area,
    pos: Pos,
}

impl Area {
    /// A walk over every point of `[pos1, pos2)`, starting at `pos1`.
    pub fn pos_iter(&self) -> (r: AreaPosIter)
        ensures
            r.area() == *self,
            r.cursor() == self.pos1,
    {
        AreaPosIter { area: *self, pos: self.pos1 }
    }
}

impl AreaPosIter {
    pub closed spec fn area(&self) -> Area {
        self.area
    }

    pub closed spec fn cursor(&self) -> Pos {
        self.pos
    }

    /// The next point of the walk, or `None` once it is over.
    pub fn next(&mut self) -> (r: Option<Pos>)
        ensures
            final(self).area() == old(self).area(),
            pos_step(old(self).area(), old(self).cursor()) matches Some((p, c)) ==> r == Some(p),
            pos_step(old(self).area(), old(self).cursor()) matches Some((p, c)) ==> final(self).cursor() == c,
            pos_step(old(self).area(), old(self).cursor()) is None ==> (r is None),
            pos_step(old(self).area(), old(self).cursor()) is None ==> final(self).cursor() == old(self).cursor(),
    {
        if self.pos.y >= self.area.pos2.y || self.pos.x >= self.area.pos2.x {
            return None;
        }
        let p = self.pos;
        self.pos.x = self.pos.x + 1;
        if self.pos.x >= self.area.pos2.x {
            self.pos.x = self.area.pos1.x;
            self.pos.y = self.pos.y + 1;
        }
        Some(p)
    }
}

/// Every point of `a` in row-major order: the `k`-th is
/// `(pos1.x + k % w, pos1.y + k / w)` for a box `w` points wide.
pub open spec fn area_walk(a: Area) -> Seq<Pos> {
    if a.is_nonempty() {
        let w = a.pos2.x - a.pos1.x;
        let h = a.pos2.y - a.pos1.y;
        Seq::new(
            (w * h) as nat,
            |k: int| Pos { x: (a.pos1.x + k % w) as i32, y: (a.pos1.y + k / w) as i32 },
        )
    } else {
        Seq::empty()
    }
}

/// Moving from the `k`-th to the `k + 1`-th point of a row-major walk over
/// rows `w` wide.
proof fn lemma_walk_step(k: int, w: int)
    requires
        0 <= k,
        0 < w,
    ensures
        k % w + 1 >= w ==> (k + 1) % w == 0 && (k + 1) / w == k / w + 1,
        k % w + 1 < w ==> (k + 1) % w == k % w + 1 && (k + 1) / w == k / w,
{
    vstd::arithmetic::div_mod::lemma_fundamental_div_mod(k, w);
    vstd::arithmetic::div_mod::lemma_mod_pos_bound(k, w);
    let q = k / w;
    assert((q + 1) * w == w * q + w && q * w == w * q) by (nonlinear_arith);
    if k % w + 1 >= w {
        vstd::arithmetic::div_mod::lemma_fundamental_div_mod_converse(k + 1, w, k / w + 1, 0);
    } else {
        vstd::arithmetic::div_mod::lemma_fundamental_div_mod_converse(k + 1, w, k / w, k % w + 1);
    }
}

impl Area {
    /// Every point of the box, walked with `pos_iter`.
    pub fn positions(&self) -> (r: Vec<Pos>)
        ensures
            r@ == area_walk(*self),
    {
        let mut it = self.pos_iter();
        let mut out: Vec<Pos> = Vec::new();
        if !(self.pos1.x < self.pos2.x && self.pos1.y < self.pos2.y) {
            let first = it.next();
            proof {
                assert(first is None);
            }
            return out;
        }
        let ghost w = self.pos2.x - self.pos1.x;
        let ghost h = self.pos2.y - self.pos1.y;
        let ghost walk = area_walk(*self);
        loop
            invariant
                self.is_nonempty(),
                w == self.pos2.x - self.pos1.x,
                h == self.pos2.y - self.pos1.y,
                walk == area_walk(*self),
                it.area() == *self,
                out@.len() <= w * h,
                out@ == walk.take(out@.len() as int),
                it.cursor() == (Pos {
                    x: (self.pos1.x + out@.len() as int % w) as i32,
                    y: (self.pos1.y + out@.len() as int / w) as i32,
                }),
            decreases w * h - out@.len(),
        {
            let ghost k = out@.len() as int;
            proof {
                lemma_walk_step(k, w);
                vstd::arithmetic::div_mod::lemma_mod_pos_bound(k, w);
                vstd::arithmetic::div_mod::lemma_fundamental_div_mod(k, w);
                assert(k / w <= h) by (nonlinear_arith)
                    requires
                        k == w * (k / w) + k % w,
                        0 <= k % w,
                        k <= w * h,
                        0 < w,
                ;
                assert(k < w * h ==> k / w < h) by (nonlinear_arith)
                    requires
                        k == w * (k / w) + k % w,
                        0 <= k % w,
                        0 < w,
                ;
                assert(k / w < h ==> k < w * h) by (nonlinear_arith)
                    requires
                        k == w * (k / w) + k % w,
                        k % w < w,
                        0 < w,
                ;
                assert(0 <= k / w);
            }
            match it.next() {
                Some(p) => {
                    proof {
                        assert(k < w * h);
                        assert(walk[k] == p);
                    }
                    out.push(p);
                    proof {
                        assert(out@ =~= walk.take(k + 1));
                    }
                },
                None => {
                    proof {
                        assert(walk.len() == w * h);
                        assert(out@ =~= walk);
                    }
                    return out;
                },
            }
        }
    }
}

/// A point lies in the intersection exactly when it lies in both boxes.
pub proof fn lemma_intersection_contains(a: Area, b: Area, p: Pos)
    ensures
        (a.contains_spec(p) && b.contains_spec(p)) <==> (a.intersection_spec(b) matches Some(
            c,
        ) && c.contains_spec(p)),
{
}

/// Intersection does not depend on the order of its arguments.
pub proof fn lemma_intersection_symmetric(a: Area, b: Area)
    ensures
        a.intersection_spec(b) == b.intersection_spec(a),
{
}

/// A box that holds a point intersects itself in its normalized form.
pub proof fn lemma_intersection_self(a: Area)
    requires
        a.is_nonempty(),
    ensures
        a.intersection_spec(a) == Some(a.normalize_spec()),
{
}

} // verus!
