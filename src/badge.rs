//! The notification badge drawn over the tray icon: a filled red disc near
//! the top-right corner of an RGBA image.
use vstd::prelude::*;

verus! {

pub const BADGE_RADIUS: u32 = 6;

/// Red, opaque.
pub open spec fn badge_color(c: int) -> u8 {
    if c == 0 {
        255
    } else if c == 1 {
        59
    } else if c == 2 {
        48
    } else {
        255
    }
}

/// Pixel `(x, y)` of an image `width` wide lies in the disc of radius 6
/// centred 8 pixels from the right and top edges.
pub open spec fn in_badge(x: int, y: int, width: int) -> bool {
    let dx = x - (width - 8);
    let dy = y - 8;
    dx * dx + dy * dy <= 36
}

/// Pixel `p` (row-major) is painted: it lies in the image and in the disc,
/// and all four of its bytes are in the buffer.
pub open spec fn painted(p: int, width: int, height: int, len: int) -> bool {
    &&& p / width < height
    &&& in_badge(p % width, p / width, width)
    &&& 4 * p + 3 < len
}

/// Byte `k` of the badged image.
pub open spec fn badge_byte(original: Seq<u8>, width: int, height: int, k: int) -> u8 {
    if painted(k / 4, width, height, original.len() as int) {
        badge_color(k % 4)
    } else {
        original[k]
    }
}

proof fn lemma_pixel_of_byte(p: int, k: int, w: int, x: int, y: int)
    requires
        w > 0,
        0 <= x < w,
        0 <= y,
        p == y * w + x,
        4 * p <= k < 4 * p + 4,
    ensures
        k / 4 == p,
        k % 4 == k - 4 * p,
        p / w == y,
        p % w == x,
{
    vstd::arithmetic::div_mod::lemma_fundamental_div_mod_converse(k, 4, p, k - 4 * p);
    vstd::arithmetic::div_mod::lemma_fundamental_div_mod_converse(p, w, y, x);
}

/// The RGBA image `original`, `width` by `height`, with the badge drawn
/// over it; pixels whose bytes fall outside the buffer are left alone.
pub fn create_badge_icon(original: &[u8], width: u32, height: u32) -> (r: Result<Vec<u8>, String>)
    requires
        width >= BADGE_RADIUS + 2,
    ensures
        r matches Ok(v) && v@.len() == original@.len() && forall|k: int|
            0 <= k < v@.len() ==> v@[k] == badge_byte(original@, width as int, height as int, k),
{
    let mut pixels: Vec<u8> = Vec::new();
    let mut i: usize = 0;
    while i < original.len()
        invariant
            i <= original@.len(),
            pixels@ == original@.take(i as int),
        decreases original@.len() - i,
    {
        pixels.push(original[i]);
        i = i + 1;
        assert(pixels@ =~= original@.take(i as int));
    }
    assert(pixels@ =~= original@);
    let ghost len = original@.len() as int;
    let ghost w = width as int;
    let ghost h = height as int;
    let cx: u32 = width - BADGE_RADIUS - 2;
    let cy: u32 = BADGE_RADIUS + 2;
    let mut y: u32 = 0;
    while y < height
        invariant
            w == width as int,
            h == height as int,
            w >= 8,
            cx == w - 8,
            cy == 8,
            y <= height,
            pixels@.len() == len == original@.len(),
            forall|k: int|
                0 <= k < len ==> #[trigger] pixels@[k] == if k / 4 < y * w && painted(
                    k / 4,
                    w,
                    h,
                    len,
                ) {
                    badge_color(k % 4)
                } else {
                    original@[k]
                },
        decreases height - y,
    {
        let mut x: u32 = 0;
        while x < width
            invariant
                w == width as int,
                h == height as int,
                w >= 8,
                cx == w - 8,
                cy == 8,
                y < height,
                x <= width,
                pixels@.len() == len == original@.len(),
                forall|k: int|
                    0 <= k < len ==> #[trigger] pixels@[k] == if k / 4 < y * w + x && painted(
                        k / 4,
                        w,
                        h,
                        len,
                    ) {
                        badge_color(k % 4)
                    } else {
                        original@[k]
                    },
            decreases width - x,
        {
            let ghost p = y * w + x;
            let dx: i64 = x as i64 - cx as i64;
            let dy: i64 = y as i64 - cy as i64;
            let near = -6 <= dx && dx <= 6 && -6 <= dy && dy <= 6;
            let inside = if near {
                assert(dx * dx <= 36 && dy * dy <= 36 && dx * dx >= 0 && dy * dy >= 0)
                    by (nonlinear_arith)
                    requires
                        -6 <= dx <= 6,
                        -6 <= dy <= 6,
                ;
                dx * dx + dy * dy <= 36
            } else {
                false
            };
            proof {
                assert(p >= 0) by (nonlinear_arith)
                    requires
                        p == y * w + x,
                        y >= 0,
                        w >= 0,
                        x >= 0,
                ;
                lemma_pixel_of_byte(p, 4 * p, w, x as int, y as int);
                if !(-6 <= dx <= 6 && -6 <= dy <= 6) {
                    assert(dx * dx + dy * dy > 36) by (nonlinear_arith)
                        requires
                            !(-6 <= dx <= 6 && -6 <= dy <= 6),
                    ;
                }
                assert(inside == in_badge(x as int, y as int, w));
            }
            if inside {
                assert(y <= 14);
                assert((y as u64) * (width as u64) + x as u64 <= 15 * 0xffff_ffff) by (nonlinear_arith)
                    requires
                        y <= 14,
                        width <= 0xffff_ffff,
                        x <= 0xffff_ffff,
                ;
                let idx: u64 = (y as u64 * width as u64 + x as u64) * 4;
                assert(idx == 4 * p) by (nonlinear_arith)
                    requires
                        idx == (y * w + x) * 4,
                        p == y * w + x,
                ;
                if (idx as u128) + 3 < pixels.len() as u128 {
                    let j = idx as usize;
                    pixels.set(j, 255);
                    pixels.set(j + 1, 59);
                    pixels.set(j + 2, 48);
                    pixels.set(j + 3, 255);
                }
            }
            proof {
                assert forall|k: int| 0 <= k < len implies #[trigger] pixels@[k] == if k / 4 < p + 1
                    && painted(k / 4, w, h, len) {
                    badge_color(k % 4)
                } else {
                    original@[k]
                } by {
                    if 4 * p <= k < 4 * p + 4 {
                        lemma_pixel_of_byte(p, k, w, x as int, y as int);
                    } else {
                        if k < 4 * p {
                            assert(k / 4 < p) by {
                                vstd::arithmetic::div_mod::lemma_div_is_ordered(k, 4 * p - 1, 4);
                                vstd::arithmetic::div_mod::lemma_fundamental_div_mod_converse(
                                    4 * p - 1,
                                    4,
                                    p - 1,
                                    3,
                                );
                            }
                        } else {
                            assert(k / 4 >= p + 1) by {
                                vstd::arithmetic::div_mod::lemma_div_is_ordered(4 * p + 4, k, 4);
                                vstd::arithmetic::div_mod::lemma_fundamental_div_mod_converse(
                                    4 * p + 4,
                                    4,
                                    p + 1,
                                    0,
                                );
                            }
                        }
                    }
                }
            }
            x = x + 1;
        }
        assert(y * w + w == (y + 1) * w) by (nonlinear_arith);
        y = y + 1;
    }
    proof {
        assert forall|k: int| 0 <= k < len implies #[trigger] pixels@[k] == badge_byte(
            original@,
            w,
            h,
            k,
        ) by {
            if painted(k / 4, w, h, len) && k / 4 >= h * w {
                assert(k / 4 / w >= h) by {
                    vstd::arithmetic::div_mod::lemma_div_is_ordered(h * w, k / 4, w);
                    vstd::arithmetic::div_mod::lemma_div_by_multiple(h, w);
                }
            }
        }
    }
    Ok(pixels)
}

} // verus!
