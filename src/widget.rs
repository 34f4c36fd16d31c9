use vstd::prelude::*;

use crate::buffer::Buffer;
use crate::color::Color;
use crate::geometry::Area;

verus! {

/// A complete fraction: progress and phases are fixed-point values in
/// `[0, PROGRESS_ONE]`.
pub const PROGRESS_ONE: u32 = 65536;

/// Half of `PROGRESS_ONE`.
pub const PROGRESS_HALF: u32 = 32768;

pub open spec fn wrapping_linear_spec(frac: int) -> int {
    if 2 * frac >= PROGRESS_ONE {
        2 * PROGRESS_ONE - 2 * frac
    } else {
        2 * frac
    }
}

pub open spec fn exp_2_slope_s_spec(frac: int) -> int {
    if frac < PROGRESS_HALF {
        (2 * frac) * (2 * frac) / PROGRESS_ONE as int / 2
    } else {
        (PROGRESS_ONE - ((PROGRESS_ONE - frac) * 2) * ((PROGRESS_ONE - frac) * 2) / PROGRESS_ONE as int)
            / 2 + PROGRESS_HALF
    }
}

/// The shaping functions of the marquee.
pub struct Math {}

impl Math {
    /// The triangle wave `2 f`, folded back to `2 - 2 f` past one half.
    pub fn wrapping_linear(frac: u32) -> (r: u32)
        requires
            frac <= PROGRESS_ONE,
        ensures
            r == wrapping_linear_spec(frac as int),
            r <= PROGRESS_ONE,
    {
        let f = frac * 2;
        if f >= PROGRESS_ONE {
            2 * PROGRESS_ONE - f
        } else {
            f
        }
    }

    /// The S-curve `(2 f)^2 / 2` below one half and `1 - (2 (1 - f))^2 / 2` above.
    pub fn exp_2_slope_s(frac: u32) -> (r: u32)
        requires
            frac <= PROGRESS_ONE,
        ensures
            r == exp_2_slope_s_spec(frac as int),
            r <= PROGRESS_ONE,
    {
        if frac < PROGRESS_HALF {
            let f = (frac * 2) as u64;
            assert(f * f <= 0x1_0000_0000) by (nonlinear_arith)
                requires
                    f <= 0x1_0000,
            ;
            assert(f * f / 0x1_0000 <= 0x1_0000) by (nonlinear_arith)
                requires
                    f * f <= 0x1_0000_0000,
            ;
            (f * f / PROGRESS_ONE as u64 / 2) as u32
        } else {
            let f = ((PROGRESS_ONE - frac) * 2) as u64;
            assert(f * f <= 0x1_0000_0000) by (nonlinear_arith)
                requires
                    f <= 0x1_0000,
            ;
            assert(f * f / 0x1_0000 <= 0x1_0000) by (nonlinear_arith)
                requires
                    f * f <= 0x1_0000_0000,
            ;
            ((PROGRESS_ONE as u64 - f * f / PROGRESS_ONE as u64) / 2 + PROGRESS_HALF as u64) as u32
        }
    }
}

/// A progress indicator over a box of a buffer.
#[derive(Debug, Copy, Clone, PartialEq, Eq, Structural)]
pub struct ProgressBar {
    pub area: Area,
    /// How far along, from `0` to `PROGRESS_ONE`.
    pub progress: u32,
    pub fg: Color,
    pub bg: Color,
}

impl ProgressBar {
    /// The first column right of the filled part:
    /// `pos1.x + (pos2.x - pos1.x) * progress`, rounded down.
    pub open spec fn split_spec(&self) -> int {
        self.area.pos1.x + (self.area.pos2.x - self.area.pos1.x) * self.progress / PROGRESS_ONE as int
    }

    /// The phase of column `x`: its fraction of the bar plus the progress,
    /// taken modulo one.
    pub open spec fn phase_spec(&self, x: int) -> int {
        let f = (x - self.area.pos1.x) * PROGRESS_ONE / (self.area.pos2.x - self.area.pos1.x)
            + self.progress;
        if f >= PROGRESS_ONE {
            f - PROGRESS_ONE
        } else {
            f
        }
    }

    /// The color the marquee paints where the shaped phase is `shaped`:
    /// `fg` at alpha `shaped * 255`, over `bg`.
    pub open spec fn shaped_color(&self, shaped: int) -> Color {
        let alpha = shaped * 255 / PROGRESS_ONE as int;
        self.fg.apply_alpha_spec(alpha as u8).over_spec(self.bg)
    }

    /// `new_px` is `old_px` with the marquee color of column `x` painted over
    /// it, for some value that `shape` may give on the column's phase.
    pub open spec fn marquee_pixel<F: Fn(u32) -> u32>(&self, shape: F, x: int, old_px: Color, new_px: Color) -> bool {
        exists|s: u32|
            #[trigger] shape.ensures((self.phase_spec(x) as u32,), s) && new_px == self.shaped_color(
                s as int,
            ).over_spec(old_px)
    }

    /// A column of the bar has a phase in `[0, PROGRESS_ONE)`.
    pub proof fn lemma_phase_range(&self, x: int)
        requires
            self.progress <= PROGRESS_ONE,
            self.area.pos1.x <= x < self.area.pos2.x,
        ensures
            0 <= self.phase_spec(x) < PROGRESS_ONE,
    {
        let w = self.area.pos2.x - self.area.pos1.x;
        let d = x - self.area.pos1.x;
        assert(0 <= d * 65536 / w < 65536) by (nonlinear_arith)
            requires
                0 <= d < w,
        ;
    }

    /// Paints the part of the bar inside the buffer: `fg` over the columns
    /// left of the split, `bg` over the rest.
    pub fn draw_normal(&self, buffer: &mut Buffer)
        requires
            old(buffer).wf(),
            self.progress <= PROGRESS_ONE,
        ensures
            final(buffer).wf(),
            final(buffer).dim == old(buffer).dim,
            self.area.intersection_spec(old(buffer).area_spec()) is None ==> final(buffer).data@ == old(
                buffer,
            ).data@,
            self.area.intersection_spec(old(buffer).area_spec()) matches Some(a) ==> forall|x: int, y: int|
                final(buffer).in_bounds(x, y) ==> #[trigger] final(buffer).pixel(x, y) == if a.contains_spec(
                    crate::geometry::Pos { x: x as i32, y: y as i32 },
                ) {
                    (if x < self.split_spec() {
                        self.fg
                    } else {
                        self.bg
                    }).over_spec(old(buffer).pixel(x, y))
                } else {
                    old(buffer).pixel(x, y)
                },
    {
        let fg = self.fg;
        let bg = self.bg;
        let actual = match self.area.intersection(buffer.area()) {
            Some(a) => a,
            None => return ,
        };
        let w = self.area.pos2.x as i64 - self.area.pos1.x as i64;
        assert(0 <= w * self.progress <= w * PROGRESS_ONE) by (nonlinear_arith)
            requires
                0 < w < 0x1_0000_0000,
                self.progress <= PROGRESS_ONE,
        ;
        let progress_x = self.area.pos1.x as i64 + w * self.progress as i64 / PROGRESS_ONE as i64;
        let ghost before = *buffer;
        buffer.paint_box(
            actual.pos1.x,
            actual.pos1.y,
            actual.pos2.x,
            actual.pos2.y,
            (|c: Color, x: i32, y: i32| -> (r: Color)
                ensures
                    r == (if (x as i64) < progress_x {
                        fg
                    } else {
                        bg
                    }).over_spec(c),
                {
                    if (x as i64) < progress_x {
                        fg.premultiplied_over(c)
                    } else {
                        bg.premultiplied_over(c)
                    }
                }),
        );
        proof {
            assert forall|x: int, y: int| buffer.in_bounds(x, y) implies #[trigger] buffer.pixel(x, y)
                == if actual.contains_spec(crate::geometry::Pos { x: x as i32, y: y as i32 }) {
                (if x < self.split_spec() {
                    self.fg
                } else {
                    self.bg
                }).over_spec(before.pixel(x, y))
            } else {
                before.pixel(x, y)
            } by {
                assert((x as i32) as int == x && (y as i32) as int == y);
            }
        }
    }

    /// Paints the part of the bar inside the buffer as a marquee: the phase
    /// of each column is passed through `shape`, which may chain any shaping
    /// functions that keep `[0, PROGRESS_ONE]`, and `fg` at the shaped phase
    /// as alpha, over `bg`, is painted over the buffer.
    pub fn draw_marquee_custom<F: Fn(u32) -> u32>(&self, buffer: &mut Buffer, shape: F)
        requires
            old(buffer).wf(),
            self.progress <= PROGRESS_ONE,
            forall|f: u32| f <= PROGRESS_ONE ==> #[trigger] shape.requires((f,)),
            forall|f: u32, r: u32| f <= PROGRESS_ONE && #[trigger] shape.ensures((f,), r) ==> r <= PROGRESS_ONE,
        ensures
            final(buffer).wf(),
            final(buffer).dim == old(buffer).dim,
            self.area.intersection_spec(old(buffer).area_spec()) is None ==> final(buffer).data@ == old(
                buffer,
            ).data@,
            self.area.intersection_spec(old(buffer).area_spec()) matches Some(a) ==> forall|x: int, y: int|
                final(buffer).in_bounds(x, y) ==> if a.contains_spec(
                    crate::geometry::Pos { x: x as i32, y: y as i32 },
                ) {
                    self.marquee_pixel(shape, x, old(buffer).pixel(x, y), final(buffer).pixel(x, y))
                } else {
                    final(buffer).pixel(x, y) == old(buffer).pixel(x, y)
                },
    {
        let actual = match self.area.intersection(buffer.area()) {
            Some(a) => a,
            None => return ,
        };
        let ghost before = *buffer;
        let bar = *self;
        buffer.paint_box(
            actual.pos1.x,
            actual.pos1.y,
            actual.pos2.x,
            actual.pos2.y,
            (|c: Color, x: i32, y: i32| -> (r: Color)
                requires
                    bar == *self,
                    bar.progress <= PROGRESS_ONE,
                    bar.area.pos1.x <= x < bar.area.pos2.x,
                    forall|f: u32| f <= PROGRESS_ONE ==> #[trigger] shape.requires((f,)),
                    forall|f: u32, r: u32|
                        f <= PROGRESS_ONE && #[trigger] shape.ensures((f,), r) ==> r <= PROGRESS_ONE,
                ensures
                    bar.marquee_pixel(shape, x as int, c, r),
                {
                    let phase = bar.phase_at(x);
                    let shaped = shape(phase);
                    let r = bar.shaped_color_at(shaped).premultiplied_over(c);
                    proof {
                        assert(phase == bar.phase_spec(x as int) as u32);
                        assert(shape.ensures((bar.phase_spec(x as int) as u32,), shaped));
                    }
                    r
                }),
        );
        proof {
            assert forall|x: int, y: int| buffer.in_bounds(x, y) implies if actual.contains_spec(
                crate::geometry::Pos { x: x as i32, y: y as i32 },
            ) {
                self.marquee_pixel(shape, x, before.pixel(x, y), buffer.pixel(x, y))
            } else {
                buffer.pixel(x, y) == before.pixel(x, y)
            } by {
                assert((x as i32) as int == x && (y as i32) as int == y);
            }
        }
    }

    /// The phase of column `x`.
    fn phase_at(&self, x: i32) -> (r: u32)
        requires
            self.progress <= PROGRESS_ONE,
            self.area.pos1.x <= x < self.area.pos2.x,
        ensures
            r == self.phase_spec(x as int),
            r < PROGRESS_ONE,
    {
        proof {
            self.lemma_phase_range(x as int);
        }
        let w = self.area.pos2.x as i64 - self.area.pos1.x as i64;
        let d = x as i64 - self.area.pos1.x as i64;
        assert(0 <= (d as int) * 65536 / (w as int) < 65536) by (nonlinear_arith)
            requires
                0 <= d < w,
        ;
        let f = d * PROGRESS_ONE as i64 / w + self.progress as i64;
        if f >= PROGRESS_ONE as i64 {
            (f - PROGRESS_ONE as i64) as u32
        } else {
            f as u32
        }
    }

    /// The marquee color for the shaped phase `shaped`.
    fn shaped_color_at(&self, shaped: u32) -> (r: Color)
        requires
            shaped <= PROGRESS_ONE,
        ensures
            r == self.shaped_color(shaped as int),
    {
        assert(shaped as int * 255 / PROGRESS_ONE as int <= 255) by (nonlinear_arith)
            requires
                shaped <= PROGRESS_ONE,
        ;
        let alpha = (shaped as u64 * 255 / PROGRESS_ONE as u64) as u8;
        self.fg.apply_alpha(alpha).premultiplied_over(self.bg)
    }

    /// The marquee with the default shaping: a triangle wave eased by an S-curve.
    pub fn draw_marquee(&self, buffer: &mut Buffer)
        requires
            old(buffer).wf(),
            self.progress <= PROGRESS_ONE,
        ensures
            final(buffer).wf(),
            final(buffer).dim == old(buffer).dim,
            self.area.intersection_spec(old(buffer).area_spec()) is None ==> final(buffer).data@ == old(
                buffer,
            ).data@,
            self.area.intersection_spec(old(buffer).area_spec()) matches Some(a) ==> forall|x: int, y: int|
                final(buffer).in_bounds(x, y) ==> #[trigger] final(buffer).pixel(x, y) == if a.contains_spec(
                    crate::geometry::Pos { x: x as i32, y: y as i32 },
                ) {
                    self.shaped_color(exp_2_slope_s_spec(wrapping_linear_spec(self.phase_spec(x)))).over_spec(
                        old(buffer).pixel(x, y),
                    )
                } else {
                    old(buffer).pixel(x, y)
                },
    {
        let ghost before = *buffer;
        let shape = (|f: u32| -> (r: u32)
            requires
                f <= PROGRESS_ONE,
            ensures
                r == exp_2_slope_s_spec(wrapping_linear_spec(f as int)),
                r <= PROGRESS_ONE,
            { Math::exp_2_slope_s(Math::wrapping_linear(f)) });
        self.draw_marquee_custom(buffer, shape);
        proof {
            if let Some(a) = self.area.intersection_spec(before.area_spec()) {
                assert forall|x: int, y: int| buffer.in_bounds(x, y) implies #[trigger] buffer.pixel(x, y)
                    == if a.contains_spec(crate::geometry::Pos { x: x as i32, y: y as i32 }) {
                    self.shaped_color(exp_2_slope_s_spec(wrapping_linear_spec(self.phase_spec(x)))).over_spec(
                        before.pixel(x, y),
                    )
                } else {
                    before.pixel(x, y)
                } by {
                    if a.contains_spec(crate::geometry::Pos { x: x as i32, y: y as i32 }) {
                        assert((x as i32) as int == x);
                        self.lemma_phase_range(x);
                        assert(self.marquee_pixel(shape, x, before.pixel(x, y), buffer.pixel(x, y)));
                        let s = choose|s: u32|
                            #[trigger] shape.ensures((self.phase_spec(x) as u32,), s) && buffer.pixel(x, y)
                                == self.shaped_color(s as int).over_spec(before.pixel(x, y));
                        assert(shape.ensures((self.phase_spec(x) as u32,), s));
                    }
                }
            }
        }
    }
}

/// A bar filled with one color that pulses: each call of `advance` moves the
/// progress by `step`, and at `ceiling` it starts over from `floor`.
#[derive(Debug, Copy, Clone, PartialEq, Eq, Structural)]
pub struct Spinner {
    pub area: Area,
    /// How far along, from `0` to `PROGRESS_ONE`.
    pub progress: u32,
    pub step: u32,
    /// The progress the spinner starts over from; at most `PROGRESS_ONE`.
    pub floor: u32,
    /// The progress at which the spinner starts over; at most `PROGRESS_ONE`.
    pub ceiling: u32,
    pub fg: Color,
    pub bg: Color,
}

impl Spinner {
    pub open spec fn wf(&self) -> bool {
        self.progress <= PROGRESS_ONE && self.step <= PROGRESS_ONE && self.floor <= PROGRESS_ONE
            && self.ceiling <= PROGRESS_ONE
    }

    /// The progress after one more step.
    pub open spec fn advanced(&self) -> int {
        if self.progress + self.step >= self.ceiling {
            self.floor as int
        } else {
            self.progress + self.step
        }
    }

    /// `fg` at an alpha that rises and falls with the progress, over `bg`.
    pub open spec fn color_spec(&self) -> Color {
        let alpha = wrapping_linear_spec(self.progress as int) * 255 / PROGRESS_ONE as int;
        self.fg.apply_alpha_spec(alpha as u8).over_spec(self.bg)
    }

    /// Moves the progress one step, starting over from the floor at the ceiling.
    pub fn advance(&mut self)
        requires
            old(self).wf(),
        ensures
            final(self).progress == old(self).advanced(),
            final(self).wf(),
            final(self).area == old(self).area,
            final(self).step == old(self).step,
            final(self).floor == old(self).floor,
            final(self).ceiling == old(self).ceiling,
            final(self).fg == old(self).fg,
            final(self).bg == old(self).bg,
    {
        let next = self.progress + self.step;
        self.progress = if next >= self.ceiling {
            self.floor
        } else {
            next
        };
    }

    /// The color the whole bar takes at the current progress.
    pub fn color(&self) -> (r: Color)
        requires
            self.wf(),
        ensures
            r == self.color_spec(),
    {
        let f = Math::wrapping_linear(self.progress);
        assert(f as int * 255 / PROGRESS_ONE as int <= 255) by (nonlinear_arith)
            requires
                f <= PROGRESS_ONE,
        ;
        let alpha = (f as u64 * 255 / PROGRESS_ONE as u64) as u8;
        self.fg.apply_alpha(alpha).premultiplied_over(self.bg)
    }

    /// Paints the part of the bar inside the buffer with its current color.
    pub fn draw(&self, buffer: &mut Buffer)
        requires
            old(buffer).wf(),
            self.wf(),
        ensures
            final(buffer).wf(),
            final(buffer).dim == old(buffer).dim,
            self.area.intersection_spec(old(buffer).area_spec()) is None ==> final(buffer).data@ == old(
                buffer,
            ).data@,
            self.area.intersection_spec(old(buffer).area_spec()) matches Some(a) ==> forall|x: int, y: int|
                final(buffer).in_bounds(x, y) ==> #[trigger] final(buffer).pixel(x, y) == if a.contains_spec(
                    crate::geometry::Pos { x: x as i32, y: y as i32 },
                ) {
                    self.color_spec().over_spec(old(buffer).pixel(x, y))
                } else {
                    old(buffer).pixel(x, y)
                },
    {
        let actual = match self.area.intersection(buffer.area()) {
            Some(a) => a,
            None => return ,
        };
        let color = self.color();
        let ghost before = *buffer;
        buffer.paint_box(
            actual.pos1.x,
            actual.pos1.y,
            actual.pos2.x,
            actual.pos2.y,
            (|c: Color, x: i32, y: i32| -> (r: Color)
                ensures
                    r == color.over_spec(c),
                { color.premultiplied_over(c) }),
        );
        proof {
            assert forall|x: int, y: int| buffer.in_bounds(x, y) implies #[trigger] buffer.pixel(x, y)
                == if actual.contains_spec(crate::geometry::Pos { x: x as i32, y: y as i32 }) {
                self.color_spec().over_spec(before.pixel(x, y))
            } else {
                before.pixel(x, y)
            } by {
                assert((x as i32) as int == x && (y as i32) as int == y);
            }
        }
    }
}

} // verus!
