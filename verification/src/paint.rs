//! Painting the border of a window into a buffer of pixels that stand row by
//! row.

use vstd::prelude::*;
use vstd::arithmetic::div_mod::lemma_fundamental_div_mod_converse;

use crate::fixed::Geometry;

verus! {

/// The thickness of the border, in pixels.
pub const BORDER_THICKNESS: i32 = 4;

/// The colour of the border: opaque cyan, with alpha in the highest byte.
pub const BORDER_COLOR: u32 = 0xFF00_E5FF;

/// Whether the pixel in column `px` and row `py` lies in a rectangle.
pub open spec fn in_rect(x: int, y: int, w: int, h: int, px: int, py: int) -> bool {
    x <= px < x + w && y <= py < y + h
}

/// Whether the `i`-th pixel of a grid of `sw` times `sh` lies in a rectangle.
pub open spec fn pixel_in_rect(sw: int, sh: int, x: int, y: int, w: int, h: int, i: int) -> bool {
    &&& 0 < sw
    &&& 0 < sh
    &&& 0 <= i < sw * sh
    &&& in_rect(x, y, w, h, i % sw, i / sw)
}

/// Whether the pixel in column `px` and row `py` lies on the border of a window:
/// in the bar along one of its four edges.
pub open spec fn on_border(r: Geometry, px: int, py: int) -> bool {
    let t = BORDER_THICKNESS as int;
    ||| in_rect(r.x as int, r.y as int, r.width as int, t, px, py)
    ||| in_rect(r.x as int, r.y + r.height - t, r.width as int, t, px, py)
    ||| in_rect(r.x as int, r.y as int, t, r.height as int, px, py)
    ||| in_rect(r.x + r.width - t, r.y as int, t, r.height as int, px, py)
}

/// The colour of the `i`-th pixel when the border of `rect` is painted on a
/// transparent grid.
pub open spec fn border_pixel(sw: int, sh: int, rect: Option<Geometry>, i: int) -> u32 {
    match rect {
        Some(r) => if 0 < sw && 0 < sh && i < sw * sh && on_border(r, i % sw, i / sw) {
            BORDER_COLOR
        } else {
            0
        },
        None => 0,
    }
}

proof fn lemma_position(sw: int, xx: int, yy: int)
    requires
        0 <= xx < sw,
        0 <= yy,
    ensures
        (yy * sw + xx) % sw == xx,
        (yy * sw + xx) / sw == yy,
{
    lemma_fundamental_div_mod_converse(yy * sw + xx, sw, yy, xx);
}

proof fn lemma_index(sw: int, i: int)
    requires
        0 < sw,
        0 <= i,
    ensures
        i == (i / sw) * sw + i % sw,
        0 <= i % sw < sw,
        0 <= i / sw,
{
    vstd::arithmetic::div_mod::lemma_fundamental_div_mod(i, sw);
    vstd::arithmetic::mul::lemma_mul_is_commutative(sw, i / sw);
    vstd::arithmetic::div_mod::lemma_mod_bound(i, sw);
    vstd::arithmetic::div_mod::lemma_div_pos_is_pos(i, sw);
}

/// Fills a rectangle, as far as it lies on the grid of `sw` times `sh` pixels,
/// with `color`, and leaves every other pixel alone.
pub fn fill_rect(
    pixels: &mut Vec<u32>,
    sw: i32,
    sh: i32,
    x: i32,
    y: i32,
    w: i32,
    h: i32,
    color: u32,
)
    requires
        0 < sw && 0 < sh ==> sw * sh <= old(pixels)@.len(),
    ensures
        final(pixels)@.len() == old(pixels)@.len(),
        forall|i: int|
            0 <= i < old(pixels)@.len() ==> #[trigger] final(pixels)@[i] == if pixel_in_rect(
                sw as int,
                sh as int,
                x as int,
                y as int,
                w as int,
                h as int,
                i,
            ) {
                color
            } else {
                old(pixels)@[i]
            },
{
    let ghost before = pixels@;
    let x0: i64 = if x > 0 {
        x as i64
    } else {
        0
    };
    let y0: i64 = if y > 0 {
        y as i64
    } else {
        0
    };
    let right: i64 = x as i64 + w as i64;
    let lower: i64 = y as i64 + h as i64;
    let x1: i64 = if right < sw as i64 {
        right
    } else {
        sw as i64
    };
    let y1: i64 = if lower < sh as i64 {
        lower
    } else {
        sh as i64
    };
    if sw <= 0 || sh <= 0 || x0 >= x1 || y0 >= y1 {
        assert forall|i: int| 0 <= i < before.len() implies !pixel_in_rect(
            sw as int,
            sh as int,
            x as int,
            y as int,
            w as int,
            h as int,
            i,
        ) by {
            if 0 < sw && 0 < sh && i < sw * sh {
                lemma_index(sw as int, i);
                lemma_row_in_grid(sw as int, sh as int, i);
            }
        }
        return;
    }
    let width: usize = sw as usize;
    let mut yy: i64 = y0;
    while yy < y1
        invariant
            0 < sw,
            0 < sh,
            width == sw,
            sw * sh <= before.len(),
            0 <= x0 < x1 <= sw,
            0 <= y0 <= yy <= y1 <= sh,
            pixels@.len() == before.len(),
            forall|i: int|
                0 <= i < before.len() ==> #[trigger] pixels@[i] == if i < sw * sh && x0 <= i
                    % (sw as int) < x1 && y0 <= i / (sw as int) < yy {
                    color
                } else {
                    before[i]
                },
        decreases y1 - yy,
    {
        proof {
            lemma_row_fits(sw as int, sh as int, yy as int);
        }
        let len: usize = pixels.len();
        let row: usize = yy as usize * width;
        let ghost row_start = pixels@;
        let mut xx: i64 = x0;
        while xx < x1
            invariant
                0 < sw,
                0 < sh,
                sw * sh <= before.len(),
                before.len() == len,
                0 <= x0 <= xx <= x1 <= sw,
                0 <= yy < sh,
                row == yy * sw,
                row + sw <= sw * sh,
                row_start.len() == before.len(),
                pixels@.len() == before.len(),
                forall|i: int|
                    0 <= i < before.len() ==> #[trigger] pixels@[i] == if row + x0 <= i < row + xx {
                        color
                    } else {
                        row_start[i]
                    },
            decreases x1 - xx,
        {
            pixels.set(row + xx as usize, color);
            xx = xx + 1;
        }
        assert forall|i: int| 0 <= i < before.len() implies #[trigger] pixels@[i] == if i < sw * sh
            && x0 <= i % (sw as int) < x1 && y0 <= i / (sw as int) < yy + 1 {
            color
        } else {
            before[i]
        } by {
            lemma_index(sw as int, i);
            if row + x0 <= i < row + x1 {
                lemma_position(sw as int, i - row, yy as int);
            } else if i / (sw as int) == yy {
                assert(i == yy * sw + i % (sw as int));
            }
            assert(pixels@[i] == if row + x0 <= i < row + x1 {
                color
            } else {
                row_start[i]
            });
        }
        yy = yy + 1;
    }
    assert forall|i: int| 0 <= i < before.len() && i < sw * sh implies (pixel_in_rect(
        sw as int,
        sh as int,
        x as int,
        y as int,
        w as int,
        h as int,
        i,
    ) <==> x0 <= i % (sw as int) < x1 && y0 <= i / (sw as int) < y1) by {
        lemma_index(sw as int, i);
        lemma_row_in_grid(sw as int, sh as int, i);
    }
}

proof fn lemma_row_fits(sw: int, sh: int, yy: int)
    requires
        0 < sw,
        0 <= yy < sh,
    ensures
        0 <= yy * sw,
        yy * sw + sw <= sw * sh,
{
    assert(0 <= yy * sw) by (nonlinear_arith)
        requires
            0 < sw,
            0 <= yy,
    ;
    assert(yy * sw + sw <= sw * sh) by (nonlinear_arith)
        requires
            0 < sw,
            yy + 1 <= sh,
    ;
}

proof fn lemma_row_in_grid(sw: int, sh: int, i: int)
    requires
        0 < sw,
        0 < sh,
        0 <= i < sw * sh,
    ensures
        0 <= i / sw < sh,
{
    lemma_index(sw, i);
    assert(i / sw < sh) by (nonlinear_arith)
        requires
            0 < sw,
            i < sw * sh,
            (i / sw) * sw <= i,
    ;
}

/// Where the bar along the far edge begins, brought into the range of `i32`.
fn far_edge(start: i32, extent: i32) -> (edge: i32)
    ensures
        ({
            let exact = start + extent - BORDER_THICKNESS;
            if exact > i32::MAX {
                edge == i32::MAX
            } else if exact < i32::MIN {
                edge == i32::MIN
            } else {
                edge == exact
            }
        }),
{
    let exact: i64 = start as i64 + extent as i64 - BORDER_THICKNESS as i64;
    if exact > i32::MAX as i64 {
        i32::MAX
    } else if exact < i32::MIN as i64 {
        i32::MIN
    } else {
        exact as i32
    }
}

/// Clears the grid to transparent and paints the border of `rect`, if there is
/// one. Pixels behind the grid are cleared too.
pub fn paint_border(pixels: &mut Vec<u32>, sw: i32, sh: i32, rect: Option<Geometry>)
    requires
        0 < sw && 0 < sh ==> sw * sh <= old(pixels)@.len(),
    ensures
        final(pixels)@.len() == old(pixels)@.len(),
        forall|i: int|
            0 <= i < old(pixels)@.len() ==> #[trigger] final(pixels)@[i] == border_pixel(
                sw as int,
                sh as int,
                rect,
                i,
            ),
{
    let len: usize = pixels.len();
    let mut i: usize = 0;
    while i < len
        invariant
            len == pixels@.len(),
            i <= len,
            forall|j: int| 0 <= j < i ==> #[trigger] pixels@[j] == 0,
        decreases len - i,
    {
        pixels.set(i, 0);
        i = i + 1;
    }
    if let Some(r) = rect {
        let t: i32 = BORDER_THICKNESS;
        let lower: i32 = far_edge(r.y, r.height);
        let right: i32 = far_edge(r.x, r.width);
        fill_rect(pixels, sw, sh, r.x, r.y, r.width, t, BORDER_COLOR);
        fill_rect(pixels, sw, sh, r.x, lower, r.width, t, BORDER_COLOR);
        fill_rect(pixels, sw, sh, r.x, r.y, t, r.height, BORDER_COLOR);
        fill_rect(pixels, sw, sh, right, r.y, t, r.height, BORDER_COLOR);
        assert forall|j: int| 0 <= j < len implies #[trigger] pixels@[j] == border_pixel(
            sw as int,
            sh as int,
            rect,
            j,
        ) by {
            if 0 < sw && 0 < sh && j < sw * sh {
                lemma_index(sw as int, j);
                lemma_row_in_grid(sw as int, sh as int, j);
            }
        }
    }
}

/// The border of a window that is at least four pixels wide and high is the frame
/// of its pixels that are less than four away from one of its edges.
pub proof fn law_border_is_a_frame(r: Geometry, px: int, py: int)
    requires
        r.width >= 4,
        r.height >= 4,
    ensures
        on_border(r, px, py) <==> {
            &&& r.x <= px < r.x + r.width
            &&& r.y <= py < r.y + r.height
            &&& (px < r.x + 4 || px >= r.x + r.width - 4 || py < r.y + 4 || py >= r.y + r.height
                - 4)
        },
{
}

/// A pixel of the screen is opaque cyan exactly if it is on the border that is
/// marked, and transparent otherwise.
pub proof fn law_border_is_cyan_on_transparent(
    sw: int,
    sh: int,
    r: Geometry,
    px: int,
    py: int,
)
    requires
        0 <= px < sw,
        0 <= py < sh,
    ensures
        border_pixel(sw, sh, Some(r), py * sw + px) == if on_border(r, px, py) {
            0xFF00_E5FFu32
        } else {
            0u32
        },
        border_pixel(sw, sh, None, py * sw + px) == 0,
{
    lemma_position(sw, px, py);
    assert(py * sw + px < sw * sh) by (nonlinear_arith)
        requires
            0 <= px < sw,
            0 <= py < sh,
    ;
}

/// A pixel lies in a rectangle on the screen exactly if its column and its row do.
pub proof fn law_rectangle_is_filled_by_rows(
    sw: int,
    sh: int,
    x: int,
    y: int,
    w: int,
    h: int,
    px: int,
    py: int,
)
    requires
        0 <= px < sw,
        0 <= py < sh,
    ensures
        pixel_in_rect(sw, sh, x, y, w, h, py * sw + px) <==> x <= px < x + w && y <= py < y + h,
{
    lemma_position(sw, px, py);
    assert(0 <= py * sw + px < sw * sh) by (nonlinear_arith)
        requires
            0 <= px < sw,
            0 <= py < sh,
    ;
}

/// A window that is less than four pixels wide or high is border all over.
pub proof fn law_narrow_window_is_all_border(r: Geometry, px: int, py: int)
    requires
        r.width < 4 || r.height < 4,
        r.x <= px < r.x + r.width,
        r.y <= py < r.y + r.height,
    ensures
        on_border(r, px, py),
{
}

/// No border reaches farther than four pixels from an edge of its window, to either
/// side.
pub proof fn law_border_keeps_to_its_edges(r: Geometry, px: int, py: int)
    requires
        r.width > 0,
        r.height > 0,
        on_border(r, px, py),
    ensures
        r.x <= px < r.x + r.width || r.y <= py < r.y + r.height,
        r.x - 4 < px < r.x + r.width + 4,
        r.y - 4 < py < r.y + r.height + 4,
        px < r.x + 4 || px >= r.x + r.width - 4 || py < r.y + 4 || py >= r.y + r.height - 4,
{
}

} // verus!
