use vstd::prelude::*;

use crate::buffer::Buffer;
use crate::color::Color;
use crate::geometry::{max_int, min_int, Dim, Pos, Rect};

verus! {

/// The frame buffer of a display: a buffer bound to the display's resolution.
/// It is created for a resolution and replaced whole when the mode changes.
pub struct Screen {
    buffer: Buffer,
}

/// The part of a screen handed to the display: the top-left pixel, the row
/// stride of the buffer, and the extent, all in pixels.
#[derive(Debug, Copy, Clone, PartialEq, Eq)]
pub struct BlitRegion {
    pub coords: (usize, usize),
    pub px_stride: usize,
    pub dims: (usize, usize),
}

/// A resolution that a screen buffer can hold.
pub open spec fn resolution_fits(width: usize, height: usize) -> bool {
    width <= i32::MAX && height <= i32::MAX && width * height <= i32::MAX
}

impl Screen {
    pub closed spec fn buffer_spec(&self) -> Buffer {
        self.buffer
    }

    /// The buffer is well formed and has the extent `width x height`.
    pub open spec fn bound_to(&self, width: usize, height: usize) -> bool {
        self.buffer_spec().wf() && self.buffer_spec().dim.w == width && self.buffer_spec().dim.h
            == height
    }

    /// A black screen of `width x height` pixels; `None` when that many
    /// pixels cannot be addressed.
    pub fn new(width: usize, height: usize) -> (r: Option<Screen>)
        ensures
            (r is Some) == resolution_fits(width, height),
            r matches Some(s) ==> s.bound_to(width, height),
            r matches Some(s) ==> (forall|x: int, y: int|
                s.buffer_spec().in_bounds(x, y) ==> s.buffer_spec().pixel(x, y) == (Color {
                    r: 0,
                    g: 0,
                    b: 0,
                    a: 255,
                })),
    {
        if width > i32::MAX as usize || height > i32::MAX as usize {
            return None;
        }
        assert(width * height <= 0x8000_0000u64 * 0x8000_0000u64) by (nonlinear_arith)
            requires
                width <= 0x7fff_ffff,
                height <= 0x7fff_ffff,
        ;
        if width as u64 * height as u64 > i32::MAX as u64 {
            return None;
        }
        let dim = Dim { w: width as i32, h: height as i32 };
        Some(Screen { buffer: Buffer::new(dim) })
    }

    /// Binds the screen to a new resolution, discarding the old contents.
    /// Returns false, leaving the screen as it was, when the resolution does
    /// not fit.
    pub fn reinit(&mut self, width: usize, height: usize) -> (r: bool)
        ensures
            r == resolution_fits(width, height),
            !r ==> final(self).buffer_spec() == old(self).buffer_spec(),
            r ==> final(self).bound_to(width, height),
            r ==> (forall|x: int, y: int|
                final(self).buffer_spec().in_bounds(x, y) ==> final(self).buffer_spec().pixel(x, y) == (Color {
                    r: 0,
                    g: 0,
                    b: 0,
                    a: 255,
                })),
    {
        match Screen::new(width, height) {
            Some(s) => {
                *self = s;
                true
            },
            None => false,
        }
    }

    /// The buffer to draw on.
    pub fn get(&mut self) -> (r: &mut Buffer)
        ensures
            *r == old(self).buffer_spec(),
            final(self).buffer_spec() == *final(r),
    {
        &mut self.buffer
    }

    /// The buffer, for reading.
    pub fn buffer(&self) -> (r: &Buffer)
        ensures
            *r == self.buffer_spec(),
    {
        &self.buffer
    }

    /// The whole screen as a rectangle at the origin.
    pub fn rect(&self) -> (r: Rect)
        ensures
            r == (Rect { pos: Pos { x: 0, y: 0 }, dim: self.buffer_spec().dim }),
    {
        self.buffer.rect()
    }

    /// The part of `rect` that lies on the screen, as the display expects it;
    /// `None` when none does.
    pub fn blit_region(&self, rect: Rect) -> (r: Option<BlitRegion>)
        ensures
            ({
                let x1 = max_int(rect.pos.x as int, 0);
                let y1 = max_int(rect.pos.y as int, 0);
                let x2 = min_int(rect.pos.x + rect.dim.w, self.buffer_spec().dim.w as int);
                let y2 = min_int(rect.pos.y + rect.dim.h, self.buffer_spec().dim.h as int);
                if x1 < x2 && y1 < y2 {
                    r == Some(
                        BlitRegion {
                            coords: (x1 as usize, y1 as usize),
                            px_stride: self.buffer_spec().dim.w as usize,
                            dims: ((x2 - x1) as usize, (y2 - y1) as usize),
                        },
                    )
                } else {
                    r is None
                }
            }),
    {
        let dim = self.buffer.dim;
        let x1 = if rect.pos.x >= 0 { rect.pos.x as i64 } else { 0 };
        let y1 = if rect.pos.y >= 0 { rect.pos.y as i64 } else { 0 };
        let ex = rect.pos.x as i64 + rect.dim.w as i64;
        let ey = rect.pos.y as i64 + rect.dim.h as i64;
        let x2 = if ex <= dim.w as i64 { ex } else { dim.w as i64 };
        let y2 = if ey <= dim.h as i64 { ey } else { dim.h as i64 };
        if x1 < x2 && y1 < y2 {
            Some(
                BlitRegion {
                    coords: (x1 as usize, y1 as usize),
                    px_stride: dim.w as usize,
                    dims: ((x2 - x1) as usize, (y2 - y1) as usize),
                },
            )
        } else {
            None
        }
    }
}

} // verus!
