use uefapi::color::{gray, rgb, rgba, Color};
use uefapi::geometry::{area, dim, pos, rect, Area, Dim, Pos, Rect};

#[test]
fn intersection_of_overlapping_areas() {
    let a = area(pos(0, 0), pos(10, 10));
    let b = area(pos(5, 5), pos(15, 15));
    assert_eq!(a.intersection(b), Some(area(pos(5, 5), pos(10, 10))));
}

#[test]
fn intersection_is_symmetric() {
    let cases = [
        (area(pos(0, 0), pos(10, 10)), area(pos(5, 5), pos(15, 15))),
        (area(pos(-3, 2), pos(4, 9)), area(pos(0, -5), pos(2, 3))),
        (area(pos(0, 0), pos(2, 2)), area(pos(2, 0), pos(4, 2))),
        (area(pos(5, 5), pos(1, 1)), area(pos(0, 0), pos(9, 9))),
    ];
    for (a, b) in cases {
        assert_eq!(a.intersection(b), b.intersection(a));
    }
}

#[test]
fn intersection_with_itself_is_normalized() {
    let a = area(pos(-4, 3), pos(7, 8));
    assert_eq!(a.intersection(a), Some(a.normalize()));
    assert_eq!(a.intersection(a), Some(a));
}

#[test]
fn intersection_empty_cases() {
    let a = area(pos(0, 0), pos(2, 2));
    assert_eq!(a.intersection(area(pos(2, 0), pos(4, 2))), None);
    assert_eq!(a.intersection(area(pos(5, 5), pos(6, 6))), None);
    let inverted = area(pos(3, 3), pos(1, 1));
    assert_eq!(inverted.intersection(inverted), None);
}

#[test]
fn area_normalize_orders_corners() {
    let a = area(pos(5, 1), pos(2, 7));
    assert_eq!(a.normalize(), area(pos(2, 1), pos(5, 7)));
}

#[test]
fn rect_normalize_flips_negative_extent() {
    let r = rect(pos(10, 10), dim(-4, -6));
    assert_eq!(r.normalize(), rect(pos(6, 4), dim(4, 6)));
    let r = rect(pos(1, 2), dim(3, 4));
    assert_eq!(r.normalize(), r);
}

#[test]
fn rect_and_area_convert() {
    let r = rect(pos(2, 3), dim(4, 5));
    assert_eq!(r.area(), area(pos(2, 3), pos(6, 8)));
    assert_eq!(r.area().rect(), r);
}

#[test]
fn rect_moves_and_resizes() {
    let r = rect(pos(2, 3), dim(4, 5));
    assert_eq!(r.translate(pos(1, -1)), rect(pos(3, 2), dim(4, 5)));
    assert_eq!(r.resize(dim(7, 8)), rect(pos(2, 3), dim(7, 8)));
    assert_eq!(r.relocate(pos(0, 0)), rect(pos(0, 0), dim(4, 5)));
}

#[test]
fn rect_contains_is_half_open() {
    let r = rect(pos(2, 3), dim(4, 5));
    assert!(r.contains(pos(2, 3)));
    assert!(r.contains(pos(5, 7)));
    assert!(!r.contains(pos(6, 7)));
    assert!(!r.contains(pos(5, 8)));
    assert!(!r.contains(pos(1, 3)));
    let huge = rect(pos(i32::MAX - 1, 0), dim(i32::MAX, 1));
    assert!(huge.contains(pos(i32::MAX, 0)));
}

#[test]
fn pos_and_dim_algebra() {
    assert_eq!(pos(1, 2).add(pos(3, 4)), pos(4, 6));
    assert_eq!(pos(1, 2).sub(pos(3, 4)), pos(-2, -2));
    assert_eq!(dim(1, 2).add(dim(3, 4)), dim(4, 6));
    assert_eq!(dim(1, 2).sub(dim(3, 4)), dim(-2, -2));
    assert_eq!(pos(7, 8).dim(), Dim { w: 7, h: 8 });
    assert_eq!(dim(7, 8).pos(), Pos { x: 7, y: 8 });
}

#[test]
fn area_map_applies_functions_to_corners() {
    let a = area(pos(1, 1), pos(3, 3));
    let m = a.map(|p: Pos| pos(p.x - 1, p.y - 1), |p: Pos| pos(p.x + 1, p.y + 1));
    assert_eq!(m, area(pos(0, 0), pos(4, 4)));
    let m = a.map_all(|p: Pos| pos(p.x * 2, p.y * 2));
    assert_eq!(m, Area { pos1: pos(2, 2), pos2: pos(6, 6) });
}

#[test]
fn pos_iter_walks_row_major() {
    let mut it = area(pos(1, 1), pos(4, 3)).pos_iter();
    let mut seen = Vec::new();
    while let Some(p) = it.next() {
        seen.push((p.x, p.y));
    }
    assert_eq!(seen, vec![(1, 1), (2, 1), (3, 1), (1, 2), (2, 2), (3, 2)]);
}

#[test]
fn pos_iter_on_empty_area_yields_nothing() {
    assert_eq!(area(pos(1, 1), pos(1, 5)).pos_iter().next(), None);
    assert_eq!(area(pos(1, 1), pos(5, 1)).pos_iter().next(), None);
}

#[test]
fn rect_of_origin() {
    let r = Rect { pos: pos(0, 0), dim: dim(3, 3) };
    assert_eq!(r, rect(pos(0, 0), dim(3, 3)));
}

fn is_premultiplied(c: Color) -> bool {
    c.r <= c.a && c.g <= c.a && c.b <= c.a
}

#[test]
fn rgba_premultiplies_channels() {
    let c = rgba(255, 128, 0, 128);
    assert_eq!(c, Color { r: 128, g: 64, b: 0, a: 128 });
    assert_eq!(rgb(10, 20, 30), Color { r: 10, g: 20, b: 30, a: 255 });
    assert_eq!(gray(0x60), Color { r: 0x60, g: 0x60, b: 0x60, a: 255 });
}

#[test]
fn constructed_colors_are_premultiplied() {
    for a in [0u8, 1, 17, 128, 200, 254, 255] {
        for v in [0u8, 1, 99, 128, 255] {
            let c = rgba(v, 255 - v, v / 2, a);
            assert!(is_premultiplied(c));
            assert!(is_premultiplied(Color::black_alpha(a)));
            assert!(is_premultiplied(Color::white_alpha(a)));
            let d = rgba(200, v, 3, 255 - a);
            assert!(is_premultiplied(c.apply_alpha(v)));
            assert!(is_premultiplied(c.premultiplied_over(d)));
            assert!(is_premultiplied(c.additive_over(d)));
        }
    }
}

#[test]
fn transparent_source_leaves_destination() {
    let src = Color::black_alpha(0);
    for dst in [Color::red(), rgba(10, 200, 30, 77), Color::black_alpha(0), Color::white()] {
        assert_eq!(src.premultiplied_over(dst), dst);
    }
}

#[test]
fn opaque_source_replaces_destination() {
    for src in [Color::red(), Color::green(), Color::blue(), gray(3)] {
        for dst in [Color::white(), rgba(10, 200, 30, 77), Color::black_alpha(0)] {
            assert_eq!(src.premultiplied_over(dst), src);
        }
    }
}

#[test]
fn premultiplied_over_formula() {
    let src = rgba(255, 0, 0, 128);
    assert_eq!(src, Color { r: 128, g: 0, b: 0, a: 128 });
    let out = src.premultiplied_over(Color::white());
    assert_eq!(out, Color { r: 255, g: 127, b: 127, a: 255 });
    let out = src.premultiplied_over(Color::black_alpha(0));
    assert_eq!(out, src);
}

#[test]
fn additive_over_saturates() {
    let a = Color { r: 200, g: 10, b: 0, a: 200 };
    let b = Color { r: 100, g: 20, b: 5, a: 100 };
    assert_eq!(a.additive_over(b), Color { r: 255, g: 30, b: 5, a: 255 });
}

#[test]
fn apply_alpha_scales_channels() {
    assert_eq!(Color::white().apply_alpha(128), Color { r: 128, g: 128, b: 128, a: 128 });
    assert_eq!(Color::white().apply_alpha(255), Color::white());
    assert_eq!(Color::white().apply_alpha(0), Color { r: 0, g: 0, b: 0, a: 0 });
    assert_eq!(Color::black_alpha(0).apply_alpha(200), Color { r: 0, g: 0, b: 0, a: 0 });
    let c = Color { r: 100, g: 50, b: 0, a: 200 };
    assert_eq!(c.apply_alpha(128), Color { r: 50, g: 25, b: 0, a: 100 });
}

#[test]
fn named_colors() {
    assert_eq!(Color::black(), Color { r: 0, g: 0, b: 0, a: 255 });
    assert_eq!(Color::white(), Color { r: 255, g: 255, b: 255, a: 255 });
    assert_eq!(Color::red(), rgb(255, 0, 0));
    assert_eq!(Color::green(), rgb(0, 255, 0));
    assert_eq!(Color::blue(), rgb(0, 0, 255));
    assert_eq!(Color::white_alpha(90), Color { r: 90, g: 90, b: 90, a: 90 });
}

#[test]
fn pos_and_dim_from_tuples() {
    assert_eq!(Pos::from((3, -4)), pos(3, -4));
    assert_eq!(Dim::from((5, 6)), dim(5, 6));
}
