//! Compositor layout engine: the screen split into an app zone (top ~80%) and a
//! reserved terminal zone (bottom ~20%), and side-by-side tiling of app surfaces
//! inside the app zone.
use vstd::prelude::*;

verus! {

/// An axis-aligned rectangle in screen coordinates.
#[derive(Debug, Clone, Copy, PartialEq, Eq, Structural)]
pub struct Rect {
    pub x: i32,
    pub y: i32,
    pub w: i32,
    pub h: i32,
}

/// The two zones of the session screen.
#[derive(Debug, PartialEq, Eq, Structural, Clone, Copy)]
pub struct Layout {
    pub app_zone: Rect,
    pub term_zone: Rect,
}

/// Percentage of screen height reserved for the terminal pane.
pub const TERM_PERCENT: i32 = 20;

/// Integer division rounding toward zero, as Rust's `/` on signed integers, for a
/// positive divisor.
pub open spec fn trunc_div(a: int, b: int) -> int
    recommends
        b > 0,
{
    if a >= 0 {
        a / b
    } else {
        -((-a) / b)
    }
}

/// Height of the terminal zone of a screen `screen_h` pixels high.
pub open spec fn term_height(screen_h: int) -> int {
    trunc_div(screen_h * TERM_PERCENT, 100)
}

/// Split a screen into the app zone (top ~80%) and terminal zone (bottom ~20%).
pub fn layout(screen_w: i32, screen_h: i32) -> (l: Layout)
    requires
        i32::MIN <= screen_h * TERM_PERCENT <= i32::MAX,
    ensures
        l.term_zone == (Rect { x: 0, y: l.app_zone.h, w: screen_w, h: term_height(screen_h as int) as i32 }),
        l.app_zone == (Rect { x: 0, y: 0, w: screen_w, h: (screen_h - term_height(screen_h as int)) as i32 }),
        // the zones are stacked and cover the full height
        l.app_zone.h + l.term_zone.h == screen_h,
        l.term_zone.y == l.app_zone.y + l.app_zone.h,
        // on a real screen both zones have a non-negative height
        screen_h >= 0 ==> 0 <= l.term_zone.h <= screen_h && 0 <= l.app_zone.h <= screen_h,
{
    proof {
        if screen_h >= 0 {
            let t = screen_h * TERM_PERCENT;
            assert(0 <= t / 100 <= screen_h) by (nonlinear_arith)
                requires
                    t == screen_h * 20,
                    screen_h >= 0,
            ;
        }
    }
    let term_h = screen_h * TERM_PERCENT / 100;
    assert(term_h == term_height(screen_h as int));
    let app_h = screen_h - term_h;
    Layout {
        app_zone: Rect { x: 0, y: 0, w: screen_w, h: app_h },
        term_zone: Rect { x: 0, y: app_h, w: screen_w, h: term_h },
    }
}


/// Left edge of the `k`-th of `n` surfaces tiled across `zone`.
pub open spec fn tile_x(zone: Rect, n: int, k: int) -> int {
    zone.x + k * trunc_div(zone.w as int, n)
}

/// The `k`-th of `n` surfaces tiled side by side across `zone`: equal columns, the
/// last one absorbing the remainder.
pub open spec fn tile_rect(zone: Rect, n: int, k: int) -> Rect {
    let x = tile_x(zone, n, k);
    let w = if k == n - 1 {
        zone.x + zone.w - x
    } else {
        trunc_div(zone.w as int, n)
    };
    Rect { x: x as i32, y: zone.y, w: w as i32, h: zone.h }
}

/// Columns of a zone `w` wide split `n` ways stay within the zone.
proof fn lemma_columns_fit(w: int, n: int, i: int)
    requires
        n > 0,
        0 <= i <= n,
    ensures
        w >= 0 ==> 0 <= i * trunc_div(w, n) <= w,
        w < 0 ==> w <= i * trunc_div(w, n) <= 0,
        w >= 0 ==> 0 <= trunc_div(w, n) <= w,
        w < 0 ==> w <= trunc_div(w, n) <= 0,
{
    if w >= 0 {
        let q = w / n;
        assert(0 <= q && q * n <= w) by (nonlinear_arith)
            requires
                w >= 0,
                n > 0,
                q == w / n,
        ;
        assert(0 <= i * q <= n * q) by (nonlinear_arith)
            requires
                0 <= i <= n,
                q >= 0,
        ;
        assert(q <= q * n) by (nonlinear_arith)
            requires
                n >= 1,
                q >= 0,
        ;
    } else {
        let q = (-w) / n;
        assert(0 <= q && q * n <= -w) by (nonlinear_arith)
            requires
                -w > 0,
                n > 0,
                q == (-w) / n,
        ;
        assert(0 <= i * q <= n * q) by (nonlinear_arith)
            requires
                0 <= i <= n,
                q >= 0,
        ;
        assert(q <= q * n) by (nonlinear_arith)
            requires
                n >= 1,
                q >= 0,
        ;
        assert(i * (-q) == -(i * q)) by (nonlinear_arith);
    }
}

/// Tile `n` surfaces side-by-side within `zone` (last one absorbs the remainder).
pub fn tile(zone: &Rect, n: usize) -> (r: Vec<Rect>)
    requires
        n <= i32::MAX,
        n > 0 ==> i32::MIN <= zone.x + zone.w <= i32::MAX,
    ensures
        r@.len() == n,
        forall|k: int| 0 <= k < n ==> #[trigger] r@[k] == tile_rect(*zone, n as int, k),
        // the surfaces keep the zone's row
        forall|k: int| 0 <= k < n ==> #[trigger] r@[k].y == zone.y && r@[k].h == zone.h,
        // the first starts at the zone's left edge
        n > 0 ==> r@[0].x == zone.x,
        // each starts where the previous ends: no gaps, no overlaps
        forall|k: int| 0 <= k < n - 1 ==> #[trigger] r@[k + 1].x == r@[k].x + r@[k].w,
        // the last reaches the zone's right edge
        n > 0 ==> r@[n - 1].x + r@[n - 1].w == zone.x + zone.w,
        // on a zone of non-negative width, every surface lies within it
        zone.w >= 0 ==> forall|k: int|
            0 <= k < n ==> zone.x <= #[trigger] r@[k].x && 0 <= r@[k].w && r@[k].x + r@[k].w
                <= zone.x + zone.w,
{
    let mut r: Vec<Rect> = Vec::new();
    if n == 0 {
        return r;
    }
    let cnt = n as i32;
    let col_w = zone.w / cnt;
    assert(col_w == trunc_div(zone.w as int, n as int));
    let mut i: usize = 0;
    while i < n
        invariant
            0 < n <= i32::MAX,
            cnt == n,
            col_w == trunc_div(zone.w as int, n as int),
            i32::MIN <= zone.x + zone.w <= i32::MAX,
            i <= n,
            r@.len() == i,
            forall|k: int| 0 <= k < i ==> #[trigger] r@[k] == tile_rect(*zone, n as int, k),
        decreases n - i,
    {
        proof {
            lemma_columns_fit(zone.w as int, n as int, i as int);
        }
        let ii = i as i32;
        let x = zone.x + ii * col_w;
        let w = if i == n - 1 {
            zone.x + zone.w - x
        } else {
            col_w
        };
        r.push(Rect { x, y: zone.y, w, h: zone.h });
        i = i + 1;
    }
    proof {
        assert forall|k: int| 0 <= k < n - 1 implies #[trigger] r@[k + 1].x == r@[k].x + r@[k].w by {
            lemma_columns_fit(zone.w as int, n as int, k);
            lemma_columns_fit(zone.w as int, n as int, k + 1);
            assert(r@[k] == tile_rect(*zone, n as int, k));
            assert(r@[k + 1] == tile_rect(*zone, n as int, k + 1));
            assert((k + 1) * trunc_div(zone.w as int, n as int) == k * trunc_div(zone.w as int, n as int) + trunc_div(zone.w as int, n as int)) by (nonlinear_arith);
        }
        lemma_columns_fit(zone.w as int, n as int, n - 1);
        assert(r@[n - 1] == tile_rect(*zone, n as int, n - 1));
        if zone.w >= 0 {
            assert forall|k: int| 0 <= k < n implies zone.x <= #[trigger] r@[k].x && 0 <= r@[k].w
                && r@[k].x + r@[k].w <= zone.x + zone.w by {
                lemma_columns_fit(zone.w as int, n as int, k);
                lemma_columns_fit(zone.w as int, n as int, k + 1);
                assert(r@[k] == tile_rect(*zone, n as int, k));
                assert((k + 1) * trunc_div(zone.w as int, n as int) == k * trunc_div(
                    zone.w as int,
                    n as int,
                ) + trunc_div(zone.w as int, n as int)) by (nonlinear_arith);
            }
        }
        assert(r@[0] == tile_rect(*zone, n as int, 0));
    }
    r
}

/// The terminal zone takes a fifth of a screen's height, rounded down: five times its
/// height fits in the screen, and five times one row more does not.
pub proof fn law_terminal_zone_is_a_fifth(screen_h: int)
    requires
        screen_h >= 0,
    ensures
        0 <= term_height(screen_h),
        5 * term_height(screen_h) <= screen_h < 5 * term_height(screen_h) + 5,
{
    let t = term_height(screen_h);
    assert(t == (screen_h * 20) / 100);
    assert(0 <= t && 5 * t <= screen_h < 5 * t + 5) by (nonlinear_arith)
        requires
            t == (screen_h * 20) / 100,
            screen_h >= 0,
    ;
}

/// Tiling `n` surfaces across a zone of non-negative width gives every surface but the
/// last the same width, the largest one that `n` times still fits in the zone.
pub proof fn law_equal_columns(zone: Rect, n: int, k: int)
    requires
        n > 0,
        zone.w >= 0,
        0 <= k < n - 1,
    ensures
        n * tile_rect(zone, n, k).w <= zone.w < n * (tile_rect(zone, n, k).w + 1),
{
    let w = zone.w as int;
    let q = w / n;
    assert(0 <= q <= w && n * q <= w < n * (q + 1)) by (nonlinear_arith)
        requires
            w >= 0,
            n > 0,
            q == w / n,
    ;
    assert(q <= i32::MAX);
    assert(tile_rect(zone, n, k).w == q);
}

} // verus!
