//! The icon of the window: a disc that shades from blue, `#0080FF`, on the left
//! to violet, `#8000FF`, on the right.

use vstd::prelude::*;

verus! {

/// The width and the height of the icon, in pixels.
pub const ICON_SIZE: u32 = 32;

/// An icon: red, green, blue, alpha of each pixel, line by line.
pub struct IconData {
    pub rgba: Vec<u8>,
    pub width: u32,
    pub height: u32,
}

/// The square of the distance of a pixel from the centre.
pub open spec fn distance2(x: int, y: int) -> int {
    (x - 16) * (x - 16) + (y - 16) * (y - 16)
}

/// At the square `n` of a distance from the centre, `a` is not above 170 for
/// each pixel that is left to the rim, which is 15 pixels out. Both sides are
/// squared: `170 * sqrt(n) <= 2550 - a`.
pub open spec fn not_above(n: int, a: int) -> bool {
    28900 * n <= (2550 - a) * (2550 - a)
}

/// The opacity at the square `n` of a distance from the centre. The disc is
/// opaque up to a pixel and a half from its rim, and fades from there on.
pub open spec fn is_alpha(n: int, a: int) -> bool {
    if n < 183 {
        a == 255
    } else {
        &&& 0 <= a <= 255
        &&& not_above(n, a)
        &&& a < 255 ==> !not_above(n, a + 1)
    }
}

/// The four bytes of a pixel: nothing outside the disc.
pub open spec fn is_pixel(p: Seq<u8>, x: int, y: int) -> bool {
    let n = distance2(x, y);
    &&& p.len() == 4
    &&& n > 225 ==> p == seq![0u8, 0, 0, 0]
    &&& n <= 225 ==> p[0] == x * 128 / 31 && p[1] == (31 - x) * 128 / 31 && p[2] == 255 && is_alpha(
        n,
        p[3] as int,
    )
}

fn alpha_at(n: u32) -> (r: u8)
    requires
        n <= 225,
    ensures
        is_alpha(n as int, r as int),
{
    if n < 183 {
        return 255;
    }
    let mut a: u32 = 255;
    while 28900 * n > (2550 - a) * (2550 - a)
        invariant
            n <= 225,
            a <= 255,
            a < 255 ==> !not_above(n as int, a + 1),
            (2550 - a) * (2550 - a) <= u32::MAX,
        decreases a,
    {
        assert(a > 0) by {
            if a == 0 {
                assert(2550 * 2550 == 6502500) by (nonlinear_arith);
            }
        }
        a = a - 1;
        assert((2550 - a) * (2550 - a) <= u32::MAX) by (nonlinear_arith)
            requires
                0 <= a <= 255,
        ;
    }
    a as u8
}

fn push_pixel(rgba: &mut Vec<u8>, x: u32, y: u32)
    requires
        x < 32,
        y < 32,
    ensures
        final(rgba)@.len() == old(rgba)@.len() + 4,
        final(rgba)@.take(old(rgba)@.len() as int) == old(rgba)@,
        is_pixel(final(rgba)@.skip(old(rgba)@.len() as int), x as int, y as int),
{
    let dx: i32 = x as i32 - 16;
    let dy: i32 = y as i32 - 16;
    assert(0 <= dx * dx <= 256) by (nonlinear_arith)
        requires
            -16 <= dx <= 16,
    ;
    assert(0 <= dy * dy <= 256) by (nonlinear_arith)
        requires
            -16 <= dy <= 16,
    ;
    let n: u32 = (dx * dx + dy * dy) as u32;
    let ghost start = rgba@.len() as int;
    if n <= 225 {
        let alpha: u8 = alpha_at(n);
        rgba.push((x * 128 / 31) as u8);
        rgba.push(((31 - x) * 128 / 31) as u8);
        rgba.push(255);
        rgba.push(alpha);
    } else {
        rgba.push(0);
        rgba.push(0);
        rgba.push(0);
        rgba.push(0);
        assert(rgba@.skip(start) =~= seq![0u8, 0, 0, 0]);
    }
    assert(rgba@.take(start) =~= old(rgba)@);
}

/// The four bytes of pixel number `i`, line by line.
pub open spec fn pixel_bytes(rgba: Seq<u8>, i: int) -> Seq<u8> {
    rgba.subrange(4 * i, 4 * i + 4)
}

/// Draws the icon.
pub fn load_icon() -> (r: IconData)
    ensures
        r.width == 32,
        r.height == 32,
        r.rgba@.len() == 4096,
        forall|i: int|
            0 <= i < 1024 ==> is_pixel(#[trigger] pixel_bytes(r.rgba@, i), i % 32, i / 32),
{
    let mut rgba: Vec<u8> = Vec::new();
    let mut k: u32 = 0;
    while k < ICON_SIZE * ICON_SIZE
        invariant
            k <= 1024,
            rgba@.len() == 4 * k,
            forall|i: int|
                0 <= i < k ==> is_pixel(#[trigger] pixel_bytes(rgba@, i), i % 32, i / 32),
        decreases 1024 - k,
    {
        let ghost before = rgba@;
        push_pixel(&mut rgba, k % ICON_SIZE, k / ICON_SIZE);
        proof {
            assert forall|i: int| 0 <= i < k + 1 implies is_pixel(
                #[trigger] pixel_bytes(rgba@, i),
                i % 32,
                i / 32,
            ) by {
                if i < k {
                    assert(rgba@.take(before.len() as int) == before);
                    assert(pixel_bytes(rgba@, i) =~= pixel_bytes(before, i));
                } else {
                    assert(pixel_bytes(rgba@, i) =~= rgba@.skip(before.len() as int));
                }
            }
        }
        k += 1;
    }
    IconData { rgba, width: ICON_SIZE, height: ICON_SIZE }
}

/// The opacity at a distance is one number, and it never grows towards the rim.
pub proof fn law_disc_fades_to_its_rim(n: int, m: int, a: int, b: int)
    requires
        0 <= n <= m <= 225,
        is_alpha(n, a),
        is_alpha(m, b),
    ensures
        b <= a,
{
    if n >= 183 && b > a {
        assert((2550 - b) * (2550 - b) <= (2550 - (a + 1)) * (2550 - (a + 1))) by (nonlinear_arith)
            requires
                a + 1 <= b <= 255,
                0 <= a,
        ;
    }
}

/// Inside the disc a pixel takes its share of red from how far right it stands,
/// and of green from how far left, out of 128 at the edge; blue is full. Outside
/// nothing is drawn.
pub proof fn law_the_disc_shades_from_left_to_right(p: Seq<u8>, x: int, y: int)
    requires
        0 <= x < 32,
        0 <= y < 32,
        is_pixel(p, x, y),
    ensures
        p.len() == 4,
        (x - 16) * (x - 16) + (y - 16) * (y - 16) > 15 * 15 ==> p[0] == 0 && p[1] == 0 && p[2] == 0
            && p[3] == 0,
        (x - 16) * (x - 16) + (y - 16) * (y - 16) <= 15 * 15 ==> p[2] == 255 && 31 * p[0] <= 128 * x
            < 31 * (p[0] + 1) && 31 * p[1] <= 128 * (31 - x) < 31 * (p[1] + 1),
{
}

/// The disc is opaque up to 13.5 pixels from its centre. From there on it loses
/// 170 of its opacity with each pixel, down to nothing at 15: the opacity `a` at
/// the distance `d` is the largest whole one with `a <= 170 * (15 - d)`.
pub proof fn law_the_rim_is_soft(p: Seq<u8>, x: int, y: int)
    requires
        0 <= x < 32,
        0 <= y < 32,
        is_pixel(p, x, y),
        distance2(x, y) <= 225,
    ensures
        distance2(x, y) == (x - 16) * (x - 16) + (y - 16) * (y - 16),
        ({
            let n = distance2(x, y);
            let a = p[3] as int;
            &&& 4 * n <= 27 * 27 ==> a == 255
            &&& 4 * n > 27 * 27 ==> 170 * 170 * n <= (170 * 15 - a) * (170 * 15 - a)
            &&& a < 255 ==> (170 * 15 - (a + 1)) * (170 * 15 - (a + 1)) < 170 * 170 * n
            &&& n == 225 ==> a == 0
        }),
{
    let n = distance2(x, y);
    let a = p[3] as int;
    if n == 225 && a > 0 {
        assert((2550 - a) * (2550 - a) < 2550 * 2550) by (nonlinear_arith)
            requires
                0 < a <= 255,
        ;
    }
}

/// The bytes of a pixel are four of the picture, and no two pixels share any.
pub proof fn law_pixels_have_their_bytes(rgba: Seq<u8>, i: int, k: int)
    requires
        rgba.len() == 4096,
        0 <= i < 1024,
        0 <= k < 4,
    ensures
        pixel_bytes(rgba, i).len() == 4,
        pixel_bytes(rgba, i)[k] == rgba[4 * i + k],
{
}

} // verus!
