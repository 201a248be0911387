use zenvx::compositor::{layout, tile, Rect};

#[test]
fn zones_split_80_20_and_cover_screen() {
    let l = layout(1920, 1080);
    assert_eq!(l.app_zone, Rect { x: 0, y: 0, w: 1920, h: 864 });
    assert_eq!(l.term_zone, Rect { x: 0, y: 864, w: 1920, h: 216 });
    // zones are disjoint and cover the full height
    assert_eq!(l.app_zone.h + l.term_zone.h, 1080);
    assert_eq!(l.term_zone.y, l.app_zone.h);
}

#[test]
fn tiling_fills_zone_without_gaps() {
    let l = layout(1000, 1000); // app zone 1000x800
    let rects = tile(&l.app_zone, 3);
    assert_eq!(rects.len(), 3);
    assert_eq!(rects[0].x, 0);
    // surfaces are contiguous and the last reaches the right edge
    assert_eq!(rects[1].x, rects[0].x + rects[0].w);
    assert_eq!(rects[2].x + rects[2].w, l.app_zone.w);
    // all stay inside the app zone height (terminal stays reserved)
    assert!(rects.iter().all(|r| r.h == l.app_zone.h && r.y == 0));
}

#[test]
fn no_surfaces_yields_empty() {
    assert!(tile(&layout(800, 600).app_zone, 0).is_empty());
}

#[test]
fn tiling_exact_columns_and_remainder() {
    let rects = tile(&Rect { x: 10, y: 5, w: 100, h: 50 }, 3);
    assert_eq!(rects[0], Rect { x: 10, y: 5, w: 33, h: 50 });
    assert_eq!(rects[1], Rect { x: 43, y: 5, w: 33, h: 50 });
    assert_eq!(rects[2], Rect { x: 76, y: 5, w: 34, h: 50 });
}

#[test]
fn layout_rounds_toward_zero() {
    let l = layout(640, 481);
    assert_eq!(l.term_zone.h, 96); // 481 * 20 / 100 = 96.2
    assert_eq!(l.app_zone.h, 385);
    let l = layout(10, -7);
    assert_eq!(l.term_zone.h, -1); // -140 / 100 rounds toward zero
    assert_eq!(l.app_zone.h, -6);
}
