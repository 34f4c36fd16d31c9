use vstd::prelude::*;

verus! {

/// A pixel with premultiplied alpha: each color channel already carries
/// the alpha factor, so a well-formed color has `r, g, b <= a`.
#[derive(Debug, Copy, Clone, PartialEq, Eq, Structural, PartialOrd, Ord, Hash, Default)]
pub struct Color {
    pub b: u8,
    pub g: u8,
    pub r: u8,
    pub a: u8,
}

/// `v * a / 255`, the channel `v` scaled by the alpha `a`.
pub open spec fn scale(v: int, a: int) -> int {
    v * a / 255
}

/// One channel of `src` painted over `dst`, where `src_a` is the alpha of `src`.
pub open spec fn over_ch(src: int, dst: int, src_a: int) -> int {
    let v = (src * 255 + dst * (255 - src_a)) / 255;
    if v > 255 {
        255
    } else {
        v
    }
}

/// Saturating sum of two channels.
pub open spec fn add_ch(x: int, y: int) -> int {
    if x + y > 255 {
        255
    } else {
        x + y
    }
}

/// The channel `v` of a color whose alpha goes from `a` to `na`.
pub open spec fn rescale_ch(v: int, a: int, na: int) -> int {
    if a == 0 {
        0
    } else if v * na / a > 255 {
        255
    } else {
        v * na / a
    }
}

pub open spec fn rgba_spec(r: u8, g: u8, b: u8, a: u8) -> Color {
    Color {
        r: scale(r as int, a as int) as u8,
        g: scale(g as int, a as int) as u8,
        b: scale(b as int, a as int) as u8,
        a,
    }
}

impl Color {
    /// The premultiplied invariant.
    pub open spec fn premultiplied(self) -> bool {
        self.r <= self.a && self.g <= self.a && self.b <= self.a
    }

    pub open spec fn apply_alpha_spec(self, alpha: u8) -> Color {
        let na = scale(self.a as int, alpha as int);
        Color {
            r: rescale_ch(self.r as int, self.a as int, na) as u8,
            g: rescale_ch(self.g as int, self.a as int, na) as u8,
            b: rescale_ch(self.b as int, self.a as int, na) as u8,
            a: na as u8,
        }
    }

    /// `self` as source painted over `dst` as destination (Porter-Duff "over").
    pub open spec fn over_spec(self, dst: Color) -> Color {
        Color {
            r: over_ch(self.r as int, dst.r as int, self.a as int) as u8,
            g: over_ch(self.g as int, dst.g as int, self.a as int) as u8,
            b: over_ch(self.b as int, dst.b as int, self.a as int) as u8,
            a: over_ch(self.a as int, dst.a as int, self.a as int) as u8,
        }
    }

    pub open spec fn additive_spec(self, other: Color) -> Color {
        Color {
            r: add_ch(self.r as int, other.r as int) as u8,
            g: add_ch(self.g as int, other.g as int) as u8,
            b: add_ch(self.b as int, other.b as int) as u8,
            a: add_ch(self.a as int, other.a as int) as u8,
        }
    }
}

proof fn lemma_scale_bounds(v: int, a: int)
    requires
        0 <= v <= 255,
        0 <= a <= 255,
    ensures
        0 <= scale(v, a) <= a,
        0 <= scale(v, a) <= v,
{
    assert(0 <= v * a <= 255 * a) by (nonlinear_arith)
        requires
            0 <= v <= 255,
            0 <= a,
    ;
    assert(v * a <= v * 255) by (nonlinear_arith)
        requires
            0 <= v,
            a <= 255,
    ;
}

/// Multiplies the straight (non-premultiplied) channels by `a / 255`.
pub fn rgba(r: u8, g: u8, b: u8, a: u8) -> (c: Color)
    ensures
        c == rgba_spec(r, g, b, a),
        c.premultiplied(),
{
    proof {
        lemma_scale_bounds(r as int, a as int);
        lemma_scale_bounds(g as int, a as int);
        lemma_scale_bounds(b as int, a as int);
    }
    let rr = r as u32 * a as u32 / 255;
    let gg = g as u32 * a as u32 / 255;
    let bb = b as u32 * a as u32 / 255;
    Color { r: rr as u8, g: gg as u8, b: bb as u8, a }
}

/// An opaque color.
pub fn rgb(r: u8, g: u8, b: u8) -> (c: Color)
    ensures
        c == (Color { r, g, b, a: 255 }),
        c.premultiplied(),
{
    let c = rgba(r, g, b, 255);
    proof {
        assert(r as int * 255 / 255 == r as int) by (nonlinear_arith);
        assert(g as int * 255 / 255 == g as int) by (nonlinear_arith);
        assert(b as int * 255 / 255 == b as int) by (nonlinear_arith);
    }
    c
}

/// An opaque gray of level `g`.
pub fn gray(g: u8) -> (c: Color)
    ensures
        c == (Color { r: g, g, b: g, a: 255 }),
        c.premultiplied(),
{
    rgb(g, g, g)
}

impl Color {
    /// Opaque black.
    pub fn black() -> (c: Color)
        ensures
            c == (Color { r: 0, g: 0, b: 0, a: 255 }),
    {
        Color { b: 0, g: 0, r: 0, a: 255 }
    }

    /// Opaque white.
    pub fn white() -> (c: Color)
        ensures
            c == (Color { r: 255, g: 255, b: 255, a: 255 }),
    {
        Color { b: 255, g: 255, r: 255, a: 255 }
    }

    /// Opaque red.
    pub fn red() -> (c: Color)
        ensures
            c == (Color { r: 255, g: 0, b: 0, a: 255 }),
    {
        Color { b: 0, g: 0, r: 255, a: 255 }
    }

    /// Opaque green.
    pub fn green() -> (c: Color)
        ensures
            c == (Color { r: 0, g: 255, b: 0, a: 255 }),
    {
        Color { b: 0, g: 255, r: 0, a: 255 }
    }

    /// Opaque blue.
    pub fn blue() -> (c: Color)
        ensures
            c == (Color { r: 0, g: 0, b: 255, a: 255 }),
    {
        Color { b: 255, g: 0, r: 0, a: 255 }
    }

    /// Black at alpha `a`.
    pub fn black_alpha(a: u8) -> (c: Color)
        ensures
            c == (Color { r: 0, g: 0, b: 0, a }),
            c.premultiplied(),
    {
        rgba(0, 0, 0, a)
    }

    /// White at alpha `a`: every channel equals `a` once premultiplied.
    pub fn white_alpha(a: u8) -> (c: Color)
        ensures
            c == (Color { r: a, g: a, b: a, a }),
            c.premultiplied(),
    {
        proof {
            assert(255 * a as int / 255 == a as int) by (nonlinear_arith);
        }
        rgba(255, 255, 255, a)
    }

    /// Scales all four channels by `alpha / 255`.
    pub fn apply_alpha(self, alpha: u8) -> (c: Color)
        ensures
            c == self.apply_alpha_spec(alpha),
            self.premultiplied() ==> c.premultiplied(),
    {
        proof {
            lemma_scale_bounds(self.a as int, alpha as int);
        }
        let oa = self.a as u32;
        let na = self.a as u32 * alpha as u32 / 255;
        if oa == 0 {
            return Color { r: 0, g: 0, b: 0, a: na as u8 };
        }
        let r = rescale(self.r, oa, na);
        let g = rescale(self.g, oa, na);
        let b = rescale(self.b, oa, na);
        let c = Color { r, g, b, a: na as u8 };
        proof {
            if self.premultiplied() {
                lemma_rescale_bounded(self.r as int, oa as int, na as int);
                lemma_rescale_bounded(self.g as int, oa as int, na as int);
                lemma_rescale_bounded(self.b as int, oa as int, na as int);
            }
        }
        c
    }

    /// Paints `self` (the source) over `dst` (the destination):
    /// per channel `(src * 255 + dst * (255 - src.a)) / 255`.
    pub fn premultiplied_over(self, dst: Color) -> (c: Color)
        ensures
            c == self.over_spec(dst),
            self.premultiplied() && dst.premultiplied() ==> c.premultiplied(),
    {
        let c = Color {
            r: premultiplied_over_ch(dst.r, self.r, self.a),
            g: premultiplied_over_ch(dst.g, self.g, self.a),
            b: premultiplied_over_ch(dst.b, self.b, self.a),
            a: premultiplied_over_ch(dst.a, self.a, self.a),
        };
        proof {
            if self.premultiplied() && dst.premultiplied() {
                lemma_over_monotonic(self.r as int, self.a as int, dst.r as int, dst.a as int, self.a as int);
                lemma_over_monotonic(self.g as int, self.a as int, dst.g as int, dst.a as int, self.a as int);
                lemma_over_monotonic(self.b as int, self.a as int, dst.b as int, dst.a as int, self.a as int);
            }
        }
        c
    }

    /// Channel-wise saturating sum, without alpha modulation.
    pub fn additive_over(self, other: Color) -> (c: Color)
        ensures
            c == self.additive_spec(other),
            self.premultiplied() && other.premultiplied() ==> c.premultiplied(),
    {
        Color {
            r: self.r.saturating_add(other.r),
            g: self.g.saturating_add(other.g),
            b: self.b.saturating_add(other.b),
            a: self.a.saturating_add(other.a),
        }
    }
}

proof fn lemma_rescale_bounded(v: int, a: int, na: int)
    requires
        0 <= v <= a,
        0 < a,
        0 <= na <= a,
    ensures
        v * na / a <= na,
{
    assert(v * na <= a * na) by (nonlinear_arith)
        requires
            0 <= v <= a,
            0 <= na,
    ;
    vstd::arithmetic::div_mod::lemma_div_is_ordered(v * na, a * na, a);
    vstd::arithmetic::div_mod::lemma_div_multiples_vanish(na, a);
}

proof fn lemma_over_monotonic(s1: int, s2: int, d1: int, d2: int, sa: int)
    requires
        0 <= s1 <= s2,
        0 <= d1 <= d2,
        0 <= sa <= 255,
    ensures
        (s1 * 255 + d1 * (255 - sa)) / 255 <= (s2 * 255 + d2 * (255 - sa)) / 255,
{
    assert(s1 * 255 + d1 * (255 - sa) <= s2 * 255 + d2 * (255 - sa)) by (nonlinear_arith)
        requires
            0 <= s1 <= s2,
            0 <= d1 <= d2,
            0 <= sa <= 255,
    ;
    vstd::arithmetic::div_mod::lemma_div_is_ordered(
        s1 * 255 + d1 * (255 - sa),
        s2 * 255 + d2 * (255 - sa),
        255,
    );
}

/// The channel `v` of a color whose alpha goes from `a` to `na`, clamped into `u8`.
fn rescale(v: u8, a: u32, na: u32) -> (r: u8)
    requires
        0 < a <= 255,
        na <= 255,
    ensures
        r == rescale_ch(v as int, a as int, na as int),
{
    assert(v as int * na as int <= 255 * 255) by (nonlinear_arith)
        requires
            v <= 255,
            na <= 255,
    ;
    let x = v as u32 * na / a;
    if x > 255 {
        255
    } else {
        x as u8
    }
}

/// One channel of `fg` (alpha `fg_alpha`) painted over `bg`, clamped into `u8`.
fn premultiplied_over_ch(bg: u8, fg: u8, fg_alpha: u8) -> (r: u8)
    ensures
        r == over_ch(fg as int, bg as int, fg_alpha as int),
{
    assert(bg as int * (255 - fg_alpha as int) <= 255 * 255) by (nonlinear_arith)
        requires
            bg <= 255,
            fg_alpha <= 255,
    ;
    let v = (fg as u32 * 255 + bg as u32 * (255 - fg_alpha as u32)) / 255;
    if v > 255 {
        255
    } else {
        v as u8
    }
}

/// Every constructor and operator keeps the premultiplied invariant.
pub proof fn lemma_constructed_colors_premultiplied(r: u8, g: u8, b: u8, a: u8, c: Color, d: Color)
    requires
        c.premultiplied(),
        d.premultiplied(),
    ensures
        rgba_spec(r, g, b, a).premultiplied(),
        c.apply_alpha_spec(a).premultiplied(),
        c.over_spec(d).premultiplied(),
        c.additive_spec(d).premultiplied(),
{
    lemma_scale_bounds(r as int, a as int);
    lemma_scale_bounds(g as int, a as int);
    lemma_scale_bounds(b as int, a as int);
    lemma_scale_bounds(c.a as int, a as int);
    let na = scale(c.a as int, a as int);
    if c.a > 0 {
        lemma_rescale_bounded(c.r as int, c.a as int, na);
        lemma_rescale_bounded(c.g as int, c.a as int, na);
        lemma_rescale_bounded(c.b as int, c.a as int, na);
    }
    lemma_over_monotonic(c.r as int, c.a as int, d.r as int, d.a as int, c.a as int);
    lemma_over_monotonic(c.g as int, c.a as int, d.g as int, d.a as int, c.a as int);
    lemma_over_monotonic(c.b as int, c.a as int, d.b as int, d.a as int, c.a as int);
}

/// A fully transparent source leaves any destination unchanged.
pub proof fn lemma_over_transparent(src: Color, dst: Color)
    requires
        src.premultiplied(),
        src.a == 0,
    ensures
        src.over_spec(dst) == dst,
{
    lemma_times_255_div(dst.r as int);
    lemma_times_255_div(dst.g as int);
    lemma_times_255_div(dst.b as int);
    lemma_times_255_div(dst.a as int);
}

/// A fully opaque source replaces any destination.
pub proof fn lemma_over_opaque(src: Color, dst: Color)
    requires
        src.a == 255,
    ensures
        src.over_spec(dst) == src,
{
    lemma_times_255_div(src.r as int);
    lemma_times_255_div(src.g as int);
    lemma_times_255_div(src.b as int);
    lemma_times_255_div(src.a as int);
}

proof fn lemma_times_255_div(v: int)
    ensures
        v * 255 / 255 == v,
        255 * v / 255 == v,
{
    vstd::arithmetic::div_mod::lemma_div_multiples_vanish(v, 255);
    vstd::arithmetic::mul::lemma_mul_is_commutative(v, 255);
}

} // verus!
