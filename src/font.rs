use vstd::prelude::*;

use crate::buffer::idx;

verus! {

/// The glyph bitmap of a font: 8-bit alpha values, `width` per row.
pub struct Font {
    pub width: u32,
    pub bitmap: Vec<u8>,
}

impl Font {
    /// The alpha at `(sx, sy)` in the bitmap, or `None` outside it.
    pub open spec fn alpha_spec(&self, sx: int, sy: int) -> Option<u8> {
        if 0 <= sx < self.width && 0 <= sy && idx(self.width as int, sx, sy) < self.bitmap@.len() {
            Some(self.bitmap@[idx(self.width as int, sx, sy)])
        } else {
            None
        }
    }

    /// Looks up the alpha at `(sx, sy)` with the row stride `width`.
    pub fn alpha_at(&self, sx: i64, sy: i64) -> (r: Option<u8>)
        ensures
            r == self.alpha_spec(sx as int, sy as int),
    {
        if sx < 0 || sy < 0 || sx >= self.width as i64 || sy as u128 >= self.bitmap.len() as u128 {
            proof {
                if 0 <= sx < self.width && 0 <= sy && sy >= self.bitmap@.len() {
                    assert(sy * self.width + sx >= sy) by (nonlinear_arith)
                        requires
                            0 <= sx < self.width,
                            0 <= sy,
                    ;
                }
            }
            return None;
        }
        assert(sy * self.width <= self.bitmap@.len() * 0x1_0000_0000) by (nonlinear_arith)
            requires
                0 <= sy < self.bitmap@.len(),
                0 <= self.width < 0x1_0000_0000,
        ;
        let i = sy as u128 * self.width as u128 + sx as u128;
        if i < self.bitmap.len() as u128 {
            Some(self.bitmap[i as usize])
        } else {
            None
        }
    }
}

/// One glyph of a font: where its bitmap lies, its extent, and the offset
/// at which it is drawn.
#[derive(Debug, Copy, Clone, PartialEq, Eq)]
pub struct Glyph {
    pub pos: (u32, u32),
    pub size: (u32, u32),
    pub offset: (i32, i32),
}

impl Glyph {
    /// Its bitmap position and extent are representable as `i32`.
    pub open spec fn coords_fit(self) -> bool {
        self.pos.0 <= i32::MAX && self.pos.1 <= i32::MAX && self.size.0 <= i32::MAX && self.size.1
            <= i32::MAX
    }
}

/// The font's answer for the next characters of a text: no glyph for a
/// character, or a glyph that matched one or two characters.
#[derive(Debug, Copy, Clone, PartialEq, Eq)]
pub enum GlyphResult {
    Unknown(char),
    Single(Glyph, char),
    Double(Glyph, char, char),
}

} // verus!
