use uefapi::buffer::Buffer;
use uefapi::color::{rgba, Color};
use uefapi::font::{Font, Glyph, GlyphResult};
use uefapi::geometry::{area, dim, pos, rect, Pos};
use uefapi::layout::{wrapped_height, GlyphCoordResult, StraightGlyphCoordIterator};
use uefapi::screen::{BlitRegion, Screen};
use uefapi::widget::{Math, ProgressBar, PROGRESS_HALF, PROGRESS_ONE};

fn px(b: &Buffer, x: i32, y: i32) -> Color {
    b.data[(y * b.dim.w + x) as usize]
}

/// A buffer whose pixel (x, y) has red level 10 * y + x.
fn numbered(w: i32, h: i32) -> Buffer {
    let mut b = Buffer::new(dim(w, h));
    for y in 0..h {
        for x in 0..w {
            b.data[(y * w + x) as usize] = Color { r: (10 * y + x) as u8, g: 0, b: 0, a: 255 };
        }
    }
    b
}

#[test]
fn clear_fills_every_pixel() {
    let mut b = Buffer::new_cleared(dim(4, 4), Color::red());
    b.clear(Color::black());
    assert_eq!(b.data.len(), 16);
    for y in 0..4 {
        for x in 0..4 {
            assert_eq!(px(&b, x, y), Color { r: 0, g: 0, b: 0, a: 255 });
        }
    }
}

#[test]
fn new_buffer_is_black() {
    let b = Buffer::new(dim(3, 2));
    assert_eq!(b.data, vec![Color::black(); 6]);
    assert_eq!(b.rect(), rect(pos(0, 0), dim(3, 2)));
    assert_eq!(b.area(), area(pos(0, 0), pos(3, 2)));
    let e = Buffer::new(dim(0, 5));
    assert!(e.data.is_empty());
}

#[test]
fn apply_outside_destination_changes_nothing() {
    let src = numbered(4, 4);
    let mut dst = Buffer::new_cleared(dim(4, 4), Color::blue());
    let before = dst.clone();
    dst.premultiplied_over(&src, src.area(), pos(4, 0));
    assert_eq!(dst, before);
    dst.premultiplied_over(&src, src.area(), pos(-4, -4));
    assert_eq!(dst, before);
    dst.apply(&src, area(pos(10, 10), pos(12, 12)), pos(0, 0), |_d: Color, s: Color| s);
    assert_eq!(dst, before);
}

#[test]
fn apply_clips_at_the_right_edge() {
    let src = numbered(4, 4);
    let mut dst = Buffer::new_cleared(dim(4, 4), Color::blue());
    dst.apply(&src, src.area(), pos(2, 1), |_d: Color, s: Color| s);
    for y in 0..4 {
        for x in 0..4 {
            let expected = if x >= 2 && y >= 1 { px(&src, x - 2, y - 1) } else { Color::blue() };
            assert_eq!(px(&dst, x, y), expected);
        }
    }
}

#[test]
fn apply_clips_at_the_left_edge() {
    let src = numbered(4, 4);
    let mut dst = Buffer::new_cleared(dim(4, 4), Color::blue());
    dst.apply(&src, src.area(), pos(-1, -2), |_d: Color, s: Color| s);
    for y in 0..4 {
        for x in 0..4 {
            let expected = if x < 3 && y < 2 { px(&src, x + 1, y + 2) } else { Color::blue() };
            assert_eq!(px(&dst, x, y), expected);
        }
    }
}

#[test]
fn area_apply_reports_the_clipped_source() {
    let dst = Buffer::new(dim(4, 4));
    let src_bounds = area(pos(0, 0), pos(4, 4));
    assert_eq!(
        dst.area_apply(src_bounds, src_bounds, pos(2, 1)),
        Some((area(pos(0, 0), pos(2, 3)), pos(2, 1)))
    );
    assert_eq!(
        dst.area_apply(src_bounds, area(pos(-5, -5), pos(2, 2)), pos(-1, 0)),
        Some((area(pos(1, 0), pos(2, 2)), pos(0, 0)))
    );
    assert_eq!(dst.area_apply(src_bounds, src_bounds, pos(4, 4)), None);
}

#[test]
fn buffer_premultiplied_over_blends_each_pixel() {
    let src = Buffer::new_cleared(dim(2, 2), rgba(255, 0, 0, 128));
    let mut dst = Buffer::new_cleared(dim(3, 3), Color::white());
    dst.premultiplied_over(&src, src.area(), pos(1, 1));
    let blended = Color { r: 255, g: 127, b: 127, a: 255 };
    assert_eq!(px(&dst, 0, 0), Color::white());
    assert_eq!(px(&dst, 1, 1), blended);
    assert_eq!(px(&dst, 2, 2), blended);
    assert_eq!(px(&dst, 0, 2), Color::white());
}

#[test]
fn buffer_additive_over_saturates() {
    let src = Buffer::new_cleared(dim(1, 1), Color { r: 100, g: 0, b: 0, a: 100 });
    let mut dst = Buffer::new_cleared(dim(1, 1), Color { r: 200, g: 5, b: 0, a: 200 });
    dst.additive_over(&src, src.area(), pos(0, 0));
    assert_eq!(px(&dst, 0, 0), Color { r: 255, g: 5, b: 0, a: 255 });
}

#[test]
fn apply_unchecked_composes_in_place() {
    let src = numbered(3, 3);
    let mut dst = Buffer::new_cleared(dim(3, 3), Color::black_alpha(0));
    dst.apply_unchecked(&src, area(pos(1, 1), pos(3, 2)), pos(0, 2), |d: Color, s: Color| d.additive_over(s));
    assert_eq!(px(&dst, 0, 2), px(&src, 1, 1));
    assert_eq!(px(&dst, 1, 2), px(&src, 2, 1));
    assert_eq!(px(&dst, 2, 2), Color::black_alpha(0));
}

fn test_font() -> Font {
    // A 4 x 2 bitmap: two 2 x 2 glyphs side by side.
    Font { width: 4, bitmap: vec![255, 0, 128, 128, 0, 255, 128, 128] }
}

#[test]
fn draw_font_rect_tints_by_bitmap_alpha() {
    let font = test_font();
    let mut b = Buffer::new_cleared(dim(3, 3), Color::black());
    b.draw_font_rect(pos(1, 1), &font, pos(0, 0), dim(2, 2), Color::white());
    assert_eq!(px(&b, 0, 0), Color::black());
    assert_eq!(px(&b, 1, 1), Color::white());
    assert_eq!(px(&b, 2, 1), Color::black());
    assert_eq!(px(&b, 1, 2), Color::black());
    assert_eq!(px(&b, 2, 2), Color::white());
}

#[test]
fn draw_font_rect_reads_with_the_font_stride() {
    let font = test_font();
    let mut b = Buffer::new_cleared(dim(2, 2), Color::black());
    b.draw_font_rect(pos(0, 0), &font, pos(2, 0), dim(2, 2), Color::white());
    let half = Color::white().apply_alpha(128).premultiplied_over(Color::black());
    assert_eq!(half, Color { r: 128, g: 128, b: 128, a: 255 });
    for y in 0..2 {
        for x in 0..2 {
            assert_eq!(px(&b, x, y), half);
        }
    }
}

#[test]
fn draw_font_rect_clips_and_skips_off_bitmap() {
    let font = test_font();
    let mut b = Buffer::new_cleared(dim(2, 2), Color::black());
    b.draw_font_rect(pos(-1, -1), &font, pos(0, 0), dim(2, 2), Color::white());
    assert_eq!(px(&b, 0, 0), Color::white());
    assert_eq!(px(&b, 1, 0), Color::black());
    let before = b.clone();
    b.draw_font_rect(pos(0, 0), &font, pos(10, 10), dim(2, 2), Color::white());
    assert_eq!(b, before);
}

#[test]
fn draw_glyph_uses_glyph_bitmap() {
    let font = test_font();
    let glyph = Glyph { pos: (2, 0), size: (2, 2), offset: (0, 0) };
    let mut b = Buffer::new_cleared(dim(4, 4), Color::black());
    b.draw_glyph(pos(2, 2), &font, glyph, Color::white());
    assert_eq!(px(&b, 0, 0), Color::black());
    assert_eq!(px(&b, 3, 3), Color { r: 128, g: 128, b: 128, a: 255 });
}

fn glyph(w: u32) -> Glyph {
    Glyph { pos: (0, 0), size: (w, 10), offset: (0, 0) }
}

fn text(s: &str) -> Vec<GlyphResult> {
    s.chars()
        .map(|c| if c == '\n' || c == '?' { GlyphResult::Unknown(c) } else { GlyphResult::Single(glyph(8), c) })
        .collect()
}

fn offsets(items: &[GlyphCoordResult]) -> Vec<(i32, i32)> {
    items
        .iter()
        .filter_map(|i| match i {
            GlyphCoordResult::Handled(gc) => Some((gc.offset.x, gc.offset.y)),
            GlyphCoordResult::Unhandled(_) => None,
        })
        .collect()
}

#[test]
fn straight_layout_advances_by_glyph_width() {
    let glyphs = vec![
        GlyphResult::Single(Glyph { pos: (1, 2), size: (5, 9), offset: (1, -2) }, 'a'),
        GlyphResult::Unknown('?'),
        GlyphResult::Double(Glyph { pos: (7, 0), size: (6, 9), offset: (0, 0) }, 'f', 'i'),
    ];
    let mut it = StraightGlyphCoordIterator::new(glyphs);
    match it.next() {
        Some(GlyphCoordResult::Handled(gc)) => {
            assert_eq!(gc.glyph_pos, pos(1, 2));
            assert_eq!(gc.glyph_dim, dim(5, 9));
            assert_eq!(gc.offset, pos(1, -2));
            assert_eq!(gc.char1, 'a');
            assert_eq!(gc.char2, None);
        }
        _ => panic!("expected a placed glyph"),
    }
    assert_eq!(it.next(), Some(GlyphCoordResult::Unhandled('?')));
    match it.next() {
        Some(GlyphCoordResult::Handled(gc)) => {
            assert_eq!(gc.offset, pos(5, 0));
            assert_eq!(gc.char1, 'f');
            assert_eq!(gc.char2, Some('i'));
        }
        _ => panic!("expected a placed glyph"),
    }
    assert_eq!(it.next(), None);
}

#[test]
fn line_wrap_moves_to_next_line() {
    let mut it = StraightGlyphCoordIterator::new(text("abcd")).line_wrap(20, 12);
    let items = it.collect();
    assert_eq!(offsets(&items), vec![(0, 0), (8, 0), (0, 12), (8, 12)]);
}

#[test]
fn line_wrap_newline_starts_a_line() {
    let mut it = StraightGlyphCoordIterator::new(text("a\nb?")).line_wrap(100, 12);
    let items = it.collect();
    assert_eq!(items.len(), 3);
    assert_eq!(offsets(&items), vec![(0, 0), (0, 12)]);
    assert_eq!(items[2], GlyphCoordResult::Unhandled('?'));
}

#[test]
fn line_wrap_is_deterministic() {
    let run = || StraightGlyphCoordIterator::new(text("hello world\nagain")).line_wrap(30, 10).collect();
    let first = run();
    let second = run();
    assert_eq!(first, second);
    assert_eq!(first.len(), 16);
}

#[test]
fn wrapped_height_one_line() {
    assert_eq!(wrapped_height(text("ab"), 100, 20), 20);
}

#[test]
fn wrapped_height_one_glyph_per_line() {
    assert_eq!(wrapped_height(text("ab"), 1, 20), 40);
    assert_eq!(wrapped_height(text("abcde"), 1, 20), 100);
}

#[test]
fn wrapped_height_of_empty_text() {
    assert_eq!(wrapped_height(Vec::new(), 100, 20), 20);
}

#[test]
fn wide_glyph_is_placed_without_splitting() {
    let glyphs = vec![GlyphResult::Single(glyph(50), 'w')];
    let mut it = StraightGlyphCoordIterator::new(glyphs).line_wrap(10, 20);
    let items = it.collect();
    assert_eq!(offsets(&items), vec![(0, 0)]);
}

#[test]
fn draw_each_draws_placed_glyphs() {
    let font = test_font();
    let glyphs = vec![
        GlyphResult::Single(Glyph { pos: (0, 0), size: (2, 2), offset: (0, 0) }, 'a'),
        GlyphResult::Unknown('?'),
        GlyphResult::Single(Glyph { pos: (2, 0), size: (2, 2), offset: (0, 0) }, 'b'),
    ];
    let mut b = Buffer::new_cleared(dim(4, 3), Color::black());
    let mut it = StraightGlyphCoordIterator::new(glyphs).line_wrap(100, 2);
    it.draw_each(&mut b, pos(0, 1), &font, Color::white());
    let half = Color { r: 128, g: 128, b: 128, a: 255 };
    assert_eq!(px(&b, 0, 0), Color::black());
    assert_eq!(px(&b, 0, 1), Color::white());
    assert_eq!(px(&b, 1, 1), Color::black());
    assert_eq!(px(&b, 1, 2), Color::white());
    assert_eq!(px(&b, 2, 1), half);
    assert_eq!(px(&b, 3, 2), half);
}

#[test]
fn progress_bar_splits_at_progress() {
    let fg = Color::red();
    let bg = rgba(0, 0, 255, 128);
    let bar = ProgressBar { area: area(pos(0, 0), pos(100, 10)), progress: PROGRESS_HALF, fg, bg };
    let dst = Color::white();
    let mut b = Buffer::new_cleared(dim(120, 12), dst);
    bar.draw_normal(&mut b);
    for y in 0..12 {
        for x in 0..120 {
            let expected = if y >= 10 || x >= 100 {
                dst
            } else if x < 50 {
                fg.premultiplied_over(dst)
            } else {
                bg.premultiplied_over(dst)
            };
            assert_eq!(px(&b, x, y), expected);
        }
    }
}

#[test]
fn progress_bar_outside_buffer_draws_nothing() {
    let bar = ProgressBar { area: area(pos(50, 50), pos(60, 60)), progress: PROGRESS_ONE, fg: Color::red(), bg: Color::blue() };
    let mut b = Buffer::new(dim(10, 10));
    let before = b.clone();
    bar.draw_normal(&mut b);
    assert_eq!(b, before);
}

#[test]
fn marquee_column_alpha_follows_phase() {
    let fg = Color::white();
    let bg = Color::black();
    let bar = ProgressBar { area: area(pos(0, 0), pos(4, 1)), progress: 0, fg, bg };
    let mut b = Buffer::new_cleared(dim(4, 1), Color::black_alpha(0));
    bar.draw_marquee_custom(&mut b, |f: u32| f);
    for x in 0..4 {
        let alpha = (x as u32 * PROGRESS_ONE / 4 * 255 / PROGRESS_ONE) as u8;
        let expected = fg.apply_alpha(alpha).premultiplied_over(bg).premultiplied_over(Color::black_alpha(0));
        assert_eq!(px(&b, x, 0), expected);
    }
    assert_eq!(px(&b, 2, 0), Color { r: 127, g: 127, b: 127, a: 255 });
}

#[test]
fn marquee_default_shaping() {
    let fg = Color::white();
    let bg = Color::black();
    let bar = ProgressBar { area: area(pos(0, 0), pos(4, 1)), progress: PROGRESS_HALF, fg, bg };
    let mut custom = Buffer::new_cleared(dim(4, 1), Color::black_alpha(0));
    let mut default = custom.clone();
    bar.draw_marquee_custom(&mut custom, |f: u32| Math::exp_2_slope_s(Math::wrapping_linear(f)));
    bar.draw_marquee(&mut default);
    assert_eq!(custom, default);
    // Column 0 has phase one half: the triangle peaks, so fg is fully opaque.
    assert_eq!(px(&default, 0, 0), Color::white());
    // Column 2 has phase zero: fg vanishes and bg shows.
    assert_eq!(px(&default, 2, 0), Color::black());
}

#[test]
fn shaping_functions() {
    assert_eq!(Math::wrapping_linear(PROGRESS_ONE / 4), PROGRESS_HALF);
    assert_eq!(Math::wrapping_linear(3 * PROGRESS_ONE / 4), PROGRESS_HALF);
    assert_eq!(Math::wrapping_linear(PROGRESS_HALF), PROGRESS_ONE);
    assert_eq!(Math::wrapping_linear(0), 0);
    assert_eq!(Math::exp_2_slope_s(PROGRESS_HALF), PROGRESS_HALF);
    assert_eq!(Math::exp_2_slope_s(PROGRESS_ONE / 4), 8192);
    assert_eq!(Math::exp_2_slope_s(3 * PROGRESS_ONE / 4), PROGRESS_ONE - 8192);
    assert_eq!(Math::exp_2_slope_s(PROGRESS_ONE), PROGRESS_ONE);
    assert_eq!(Math::exp_2_slope_s(0), 0);
}

#[test]
fn screen_binds_to_resolution() {
    let mut s = Screen::new(800, 600).unwrap();
    assert_eq!(s.rect(), rect(pos(0, 0), dim(800, 600)));
    assert_eq!(s.buffer().data.len(), 480_000);
    s.get().clear(Color::red());
    assert_eq!(s.buffer().data[0], Color::red());
    assert!(s.reinit(640, 480));
    assert_eq!(s.rect(), rect(pos(0, 0), dim(640, 480)));
    assert!(!s.reinit(100_000, 100_000));
    assert_eq!(s.rect(), rect(pos(0, 0), dim(640, 480)));
    assert!(Screen::new(1 << 31, 1).is_none());
}

#[test]
fn blit_region_is_clipped_to_screen() {
    let s = Screen::new(800, 600).unwrap();
    assert_eq!(
        s.blit_region(rect(pos(100, 100), dim(400, 20))),
        Some(BlitRegion { coords: (100, 100), px_stride: 800, dims: (400, 20) })
    );
    assert_eq!(
        s.blit_region(rect(pos(-10, 590), dim(30, 30))),
        Some(BlitRegion { coords: (0, 590), px_stride: 800, dims: (20, 10) })
    );
    assert_eq!(s.blit_region(rect(pos(800, 0), dim(5, 5))), None);
    let p: Pos = pos(1, 1);
    assert_eq!(s.blit_region(rect(p, dim(0, 5))), None);
}

#[test]
fn spinner_advances_and_starts_over() {
    let mut s = uefapi::widget::Spinner {
        area: area(pos(0, 0), pos(2, 2)),
        progress: 0,
        step: PROGRESS_ONE / 4,
        floor: 0,
        ceiling: PROGRESS_ONE - PROGRESS_ONE / 8,
        fg: Color::white(),
        bg: Color::black(),
    };
    s.advance();
    assert_eq!(s.progress, PROGRESS_ONE / 4);
    s.advance();
    assert_eq!(s.progress, PROGRESS_HALF);
    s.advance();
    assert_eq!(s.progress, 3 * PROGRESS_ONE / 4);
    s.advance();
    assert_eq!(s.progress, 0);
}

#[test]
fn spinner_fills_bar_with_one_color() {
    let s = uefapi::widget::Spinner {
        area: area(pos(1, 1), pos(3, 3)),
        progress: PROGRESS_ONE / 4,
        step: 1,
        floor: 0,
        ceiling: PROGRESS_ONE,
        fg: Color::white(),
        bg: Color::black(),
    };
    assert_eq!(s.color(), Color { r: 127, g: 127, b: 127, a: 255 });
    let mut b = Buffer::new_cleared(dim(3, 3), Color::black_alpha(0));
    s.draw(&mut b);
    assert_eq!(px(&b, 0, 0), Color::black_alpha(0));
    assert_eq!(px(&b, 1, 1), s.color());
    assert_eq!(px(&b, 2, 2), s.color());
}

#[test]
fn try_new_rejects_unaddressable_extents() {
    assert!(Buffer::try_new(dim(-1, 4), Color::black()).is_none());
    assert!(Buffer::try_new(dim(4, -1), Color::black()).is_none());
    assert!(Buffer::try_new(dim(70_000, 70_000), Color::black()).is_none());
    let b = Buffer::try_new(dim(2, 3), Color::red()).unwrap();
    assert_eq!(b.data, vec![Color::red(); 6]);
}

#[test]
fn well_formedness_is_checkable() {
    let mut b = Buffer::new(dim(3, 2));
    assert!(b.is_well_formed());
    b.data.pop();
    assert!(!b.is_well_formed());
    let odd = Buffer { data: Vec::new(), dim: dim(-1, 0) };
    assert!(!odd.is_well_formed());
}

#[test]
fn positions_enumerate_area_row_major() {
    let a = area(pos(-1, 2), pos(1, 4));
    assert_eq!(a.positions(), vec![pos(-1, 2), pos(0, 2), pos(-1, 3), pos(0, 3)]);
    assert!(area(pos(0, 0), pos(0, 3)).positions().is_empty());
    assert!(area(pos(3, 3), pos(1, 5)).positions().is_empty());
}

#[test]
fn apply_places_first_source_pixel_at_destination() {
    let src = numbered(4, 4);
    let mut dst = Buffer::new_cleared(dim(4, 4), Color::blue());
    dst.apply(&src, area(pos(1, 1), pos(3, 3)), pos(0, 0), |_d: Color, s: Color| s);
    for y in 0..4 {
        for x in 0..4 {
            let expected = if x < 2 && y < 2 { px(&src, x + 1, y + 1) } else { Color::blue() };
            assert_eq!(px(&dst, x, y), expected);
        }
    }
}

#[test]
fn apply_inner_box_clipped_on_both_sides() {
    let src = numbered(4, 4);
    let mut dst = Buffer::new_cleared(dim(4, 4), Color::blue());
    dst.apply(&src, area(pos(1, 1), pos(3, 3)), pos(-1, -1), |_d: Color, s: Color| s);
    assert_eq!(px(&dst, 0, 0), px(&src, 2, 2));
    assert_eq!(px(&dst, 1, 0), Color::blue());
    assert_eq!(px(&dst, 0, 1), Color::blue());
    let mut dst = Buffer::new_cleared(dim(4, 4), Color::blue());
    dst.apply(&src, area(pos(1, 1), pos(4, 4)), pos(2, 3), |_d: Color, s: Color| s);
    assert_eq!(px(&dst, 2, 3), px(&src, 1, 1));
    assert_eq!(px(&dst, 3, 3), px(&src, 2, 1));
    assert_eq!(px(&dst, 1, 3), Color::blue());
    assert_eq!(px(&dst, 2, 2), Color::blue());
}

#[test]
fn apply_inner_box_that_misses_changes_nothing() {
    let src = Buffer::new_cleared(dim(2, 2), Color::white());
    let mut dst = Buffer::new_cleared(dim(2, 2), Color::black());
    let before = dst.clone();
    dst.apply(&src, area(pos(1, 1), pos(2, 2)), pos(-1, -1), |_d: Color, s: Color| s);
    assert_eq!(dst, before);
    dst.premultiplied_over(&src, area(pos(1, 1), pos(2, 2)), pos(-1, -1));
    assert_eq!(dst, before);
    dst.additive_over(&src, area(pos(1, 1), pos(2, 2)), pos(-1, -1));
    assert_eq!(dst, before);
    dst.premultiplied_over(&src, area(pos(1, 1), pos(2, 2)), pos(0, 0));
    assert_eq!(px(&dst, 0, 0), Color::white());
    assert_eq!(px(&dst, 1, 1), Color::black());
}

#[test]
fn area_apply_places_inner_box() {
    let dst = Buffer::new(dim(4, 4));
    let bounds = area(pos(0, 0), pos(4, 4));
    assert_eq!(
        dst.area_apply(bounds, area(pos(1, 1), pos(4, 4)), pos(2, 2)),
        Some((area(pos(1, 1), pos(3, 3)), pos(2, 2)))
    );
    assert_eq!(
        dst.area_apply(bounds, area(pos(1, 1), pos(3, 3)), pos(-1, 0)),
        Some((area(pos(2, 1), pos(3, 3)), pos(0, 0)))
    );
    assert_eq!(dst.area_apply(bounds, area(pos(1, 1), pos(2, 2)), pos(-1, -1)), None);
}

#[test]
fn buffer_additive_over_inner_box() {
    let src = numbered(3, 3);
    let mut dst = Buffer::new_cleared(dim(2, 2), Color::black_alpha(0));
    dst.additive_over(&src, area(pos(1, 2), pos(3, 3)), pos(0, 1));
    assert_eq!(px(&dst, 0, 1), px(&src, 1, 2));
    assert_eq!(px(&dst, 1, 1), px(&src, 2, 2));
    assert_eq!(px(&dst, 0, 0), Color::black_alpha(0));
}

#[test]
fn spinner_starts_over_from_its_floor() {
    let mut s = uefapi::widget::Spinner {
        area: area(pos(0, 0), pos(1, 1)),
        progress: PROGRESS_HALF,
        step: PROGRESS_HALF,
        floor: PROGRESS_ONE / 8,
        ceiling: PROGRESS_ONE,
        fg: Color::white(),
        bg: Color::black(),
    };
    s.advance();
    assert_eq!(s.progress, PROGRESS_ONE / 8);
    s.advance();
    assert_eq!(s.progress, PROGRESS_ONE / 8 + PROGRESS_HALF);
}

#[test]
fn straight_draw_each_draws_and_exhausts() {
    let font = test_font();
    let glyphs = vec![
        GlyphResult::Single(Glyph { pos: (0, 0), size: (2, 2), offset: (0, 0) }, 'a'),
        GlyphResult::Unknown('\n'),
        GlyphResult::Single(Glyph { pos: (2, 0), size: (2, 2), offset: (0, 0) }, 'b'),
    ];
    let mut b = Buffer::new_cleared(dim(4, 2), Color::black());
    let mut it = StraightGlyphCoordIterator::new(glyphs);
    it.draw_each(&mut b, pos(0, 0), &font, Color::white());
    assert_eq!(it.next(), None);
    let half = Color { r: 128, g: 128, b: 128, a: 255 };
    assert_eq!(px(&b, 0, 0), Color::white());
    assert_eq!(px(&b, 1, 0), Color::black());
    assert_eq!(px(&b, 2, 0), half);
    assert_eq!(px(&b, 3, 1), half);
}

#[test]
fn line_wrap_draw_each_exhausts_the_layout() {
    let font = test_font();
    let mut b = Buffer::new_cleared(dim(4, 4), Color::black());
    let mut it = StraightGlyphCoordIterator::new(text("ab\nc")).line_wrap(100, 2);
    it.draw_each(&mut b, pos(0, 0), &font, Color::white());
    assert_eq!(it.next(), None);
    assert!(it.collect().is_empty());
}

#[test]
fn reinit_clears_to_black() {
    let mut s = Screen::new(4, 4).unwrap();
    s.get().clear(Color::red());
    assert!(s.reinit(3, 2));
    assert_eq!(s.buffer().data, vec![Color::black(); 6]);
}
