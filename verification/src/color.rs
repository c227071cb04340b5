//! The conversion from luma and chroma to red, green and blue.

use vstd::prelude::*;

use crate::timing::Ratio;

verus! {

/// The constants of the conversion as the shader reads them.
///
/// `matrix[i]` is column `i`, applied to luma, the two chroma components and
/// one. `offset` holds whether the chroma components share a plane, then what is
/// taken off luma first.
pub struct ColorUniforms {
    pub matrix: [[Ratio; 4]; 4],
    pub offset: [Ratio; 4],
}

/// How a range of samples is stretched to the full one, as fractions.
pub struct RangeScale {
    /// What luma is multiplied by.
    pub luma: Ratio,
    /// What chroma is multiplied by.
    pub chroma: Ratio,
    /// The luma of black.
    pub black: Ratio,
}

/// The limited range keeps luma between 16 and 235 and chroma between 16 and
/// 240 of 255; the full range uses all.
pub open spec fn range_scale(full_range: bool) -> RangeScale {
    if full_range {
        RangeScale {
            luma: Ratio { num: 1, den: 1 },
            chroma: Ratio { num: 1, den: 1 },
            black: Ratio { num: 0, den: 1 },
        }
    } else {
        RangeScale {
            luma: Ratio { num: 255, den: 219 },
            chroma: Ratio { num: 255, den: 224 },
            black: Ratio { num: 16, den: 255 },
        }
    }
}

/// The share of red in luma, in ten-thousandths. Space 0 is BT.601, space 2 is
/// BT.2020, and every other number is BT.709.
pub open spec fn red_share(space: u32) -> int {
    if space == 0 {
        2990
    } else if space == 2 {
        2627
    } else {
        2126
    }
}

/// The share of blue in luma, in ten-thousandths.
pub open spec fn blue_share(space: u32) -> int {
    if space == 0 {
        1140
    } else if space == 2 {
        593
    } else {
        722
    }
}

/// What a chroma component adds to the primary that it stands for, whose share
/// in luma is `k`: twice the rest of luma, stretched.
pub open spec fn direct_gain(k: int, chroma: Ratio) -> Ratio {
    Ratio { num: (2 * (10000 - k) * chroma.num) as i64, den: (10000 * chroma.den) as i64 }
}

/// What a chroma component adds to green, when the primary that it stands for
/// has share `k` and green share `g`: less than nothing.
pub open spec fn green_gain(k: int, g: int, chroma: Ratio) -> Ratio {
    Ratio { num: (-(2 * k * (10000 - k) * chroma.num)) as i64, den: (g * 10000 * chroma.den) as i64 }
}

impl ColorUniforms {
    /// The constants are those of a conversion in which red and blue have the
    /// shares `red` and `blue` in luma.
    pub open spec fn converts(self, red: int, blue: int, full_range: bool) -> bool {
        let scale = range_scale(full_range);
        let green = 10000 - red - blue;
        let zero = Ratio { num: 0, den: 1 };
        let one = Ratio { num: 1, den: 1 };
        &&& self.matrix@[0]@ == seq![scale.luma, scale.luma, scale.luma, zero]
        &&& self.matrix@[1]@ == seq![
            zero,
            green_gain(blue, green, scale.chroma),
            direct_gain(blue, scale.chroma),
            zero,
        ]
        &&& self.matrix@[2]@ == seq![
            direct_gain(red, scale.chroma),
            green_gain(red, green, scale.chroma),
            zero,
            zero,
        ]
        &&& self.matrix@[3]@ == seq![zero, zero, zero, one]
        &&& self.offset@[1] == scale.black
        &&& self.offset@[2] == zero
        &&& self.offset@[3] == zero
    }

    /// The chroma components share a plane, or not.
    pub open spec fn is_semi(self, semi: bool) -> bool {
        self.offset@[0] == (if semi {
            Ratio { num: 1, den: 1 }
        } else {
            Ratio { num: 0, den: 1 }
        })
    }

    /// The constants for a colour space, a range and a layout.
    pub open spec fn are_for(self, space: u32, full_range: bool, semi: bool) -> bool {
        self.converts(red_share(space), blue_share(space), full_range) && self.is_semi(semi)
    }

    /// The constants of a conversion in which red and blue have these shares in
    /// luma, in ten-thousandths.
    pub fn from_coeffs(red: i64, blue: i64, full_range: bool) -> (r: ColorUniforms)
        requires
            0 < red,
            0 < blue,
            red + blue < 10000,
        ensures
            r.converts(red as int, blue as int, full_range),
            r.is_semi(false),
    {
        let green: i64 = 10000 - red - blue;
        let scale = if full_range {
            RangeScale {
                luma: Ratio { num: 1, den: 1 },
                chroma: Ratio { num: 1, den: 1 },
                black: Ratio { num: 0, den: 1 },
            }
        } else {
            RangeScale {
                luma: Ratio { num: 255, den: 219 },
                chroma: Ratio { num: 255, den: 224 },
                black: Ratio { num: 16, den: 255 },
            }
        };
        let zero = Ratio { num: 0, den: 1 };
        let one = Ratio { num: 1, den: 1 };
        let y = scale.luma;
        let ub = make_direct_gain(blue, scale.chroma);
        let vr = make_direct_gain(red, scale.chroma);
        let ug = make_green_gain(blue, green, scale.chroma);
        let vg = make_green_gain(red, green, scale.chroma);
        let c0: [Ratio; 4] = [y, y, y, zero];
        let c1: [Ratio; 4] = [zero, ug, ub, zero];
        let c2: [Ratio; 4] = [vr, vg, zero, zero];
        let c3: [Ratio; 4] = [zero, zero, zero, one];
        assert(c0@ =~= seq![y, y, y, zero]);
        assert(c1@ =~= seq![zero, ug, ub, zero]);
        assert(c2@ =~= seq![vr, vg, zero, zero]);
        assert(c3@ =~= seq![zero, zero, zero, one]);
        ColorUniforms { matrix: [c0, c1, c2, c3], offset: [zero, scale.black, zero, zero] }
    }

    /// The constants of BT.601.
    pub fn bt601(full_range: bool) -> (r: ColorUniforms)
        ensures
            r.are_for(0, full_range, false),
    {
        Self::from_coeffs(2990, 1140, full_range)
    }

    /// The constants of BT.709.
    pub fn bt709(full_range: bool) -> (r: ColorUniforms)
        ensures
            r.are_for(1, full_range, false),
    {
        Self::from_coeffs(2126, 722, full_range)
    }

    /// The constants of BT.2020.
    pub fn bt2020(full_range: bool) -> (r: ColorUniforms)
        ensures
            r.are_for(2, full_range, false),
    {
        Self::from_coeffs(2627, 593, full_range)
    }

    /// These constants for a layout whose chroma components share a plane, or
    /// do not.
    pub fn with_semi(self, semi: bool) -> (r: ColorUniforms)
        ensures
            r.matrix == self.matrix,
            r.is_semi(semi),
            r.offset@[1] == self.offset@[1],
            r.offset@[2] == self.offset@[2],
            r.offset@[3] == self.offset@[3],
    {
        let flag = if semi {
            Ratio { num: 1, den: 1 }
        } else {
            Ratio { num: 0, den: 1 }
        };
        ColorUniforms {
            matrix: self.matrix,
            offset: [flag, self.offset[1], self.offset[2], self.offset[3]],
        }
    }
}

fn make_direct_gain(k: i64, chroma: Ratio) -> (r: Ratio)
    requires
        0 < k < 10000,
        0 < chroma.num <= 255,
        0 < chroma.den <= 255,
    ensures
        r == direct_gain(k as int, chroma),
{
    let n: i64 = 2 * (10000 - k);
    let c: i64 = chroma.num;
    assert(0 <= n * c <= 20000 * 255) by (nonlinear_arith)
        requires
            0 <= n <= 20000,
            0 <= c <= 255,
    ;
    Ratio { num: n * c, den: 10000 * chroma.den }
}

fn make_green_gain(k: i64, g: i64, chroma: Ratio) -> (r: Ratio)
    requires
        0 < k < 10000,
        0 < g < 10000,
        0 < chroma.num <= 255,
        0 < chroma.den <= 255,
    ensures
        r == green_gain(k as int, g as int, chroma),
{
    let rest: i64 = 10000 - k;
    let c: i64 = chroma.num;
    let d: i64 = chroma.den;
    let k2: i64 = 2 * k;
    assert(0 <= k2 * rest <= 200_000_000) by (nonlinear_arith)
        requires
            0 <= k2 <= 20000,
            0 <= rest <= 10000,
    ;
    let p: i64 = k2 * rest;
    assert(0 <= p * c <= 200_000_000 * 255) by (nonlinear_arith)
        requires
            0 <= p <= 200_000_000,
            0 <= c <= 255,
    ;
    let e: i64 = g * 10000;
    assert(0 <= e * d <= 100_000_000 * 255) by (nonlinear_arith)
        requires
            0 <= e <= 100_000_000,
            0 <= d <= 255,
    ;
    Ratio { num: -(p * c), den: e * d }
}

/// Each range is stretched to exactly the full one: its black becomes zero, its
/// white one, and its strongest chroma as strong as that of the full range.
pub proof fn law_ranges_are_stretched_exactly(full_range: bool)
    ensures
        ({
            let scale = range_scale(full_range);
            let (black, white, chroma_span): (int, int, int) = if full_range {
                (0, 255, 255)
            } else {
                (16, 235, 240 - 16)
            };
            &&& scale.black.num * 255 == black * scale.black.den
            &&& scale.luma.num * (white - black) == 255 * scale.luma.den
            &&& scale.chroma.num * chroma_span == 255 * scale.chroma.den
        }),
{
}

/// The luma of a colour, in ten-thousandths: what the shares of red, green and
/// blue make of it.
pub open spec fn luma_of(red: int, blue: int, r: int, g: int, b: int) -> int {
    red * r + (10000 - red - blue) * g + blue * b
}

/// The chroma sample that stands for a primary `p` with share `k`, when luma is
/// `l` ten-thousandths, as numerator and denominator: the difference of the two
/// over twice the rest of luma, the stretch of the range undone.
pub open spec fn chroma_of(k: int, p: int, l: int, chroma: Ratio) -> (int, int) {
    ((10000 * p - l) * chroma.den, 2 * (10000 - k) * chroma.num)
}

/// The conversion undoes the encoding. A colour goes into luma by the shares,
/// and into chroma by its distance from luma; luma, once stretched, and the two
/// chroma samples then give back red, green and blue exactly. The equations are
/// those of the three rows, cleared of denominators.
pub proof fn law_matrix_undoes_the_encoding(
    u: ColorUniforms,
    red: i64,
    blue: i64,
    full_range: bool,
    r: int,
    g: int,
    b: int,
)
    requires
        0 < red,
        0 < blue,
        red + blue < 10000,
        u.converts(red as int, blue as int, full_range),
    ensures
        ({
            let chroma = range_scale(full_range).chroma;
            let l = luma_of(red as int, blue as int, r, g, b);
            let (un, ud) = chroma_of(blue as int, b, l, chroma);
            let (vn, vd) = chroma_of(red as int, r, l, chroma);
            let (ug, ub) = (u.matrix@[1]@[1], u.matrix@[1]@[2]);
            let (vr, vg) = (u.matrix@[2]@[0], u.matrix@[2]@[1]);
            &&& ud > 0 && vd > 0 && ug.den > 0 && ub.den > 0 && vr.den > 0
            &&& vg.den == ug.den
            &&& l * (vr.den * vd) + 10000 * (vr.num * vn) == 10000 * r * (vr.den * vd)
            &&& l * (ub.den * ud) + 10000 * (ub.num * un) == 10000 * b * (ub.den * ud)
            &&& l * (ug.den * (ud * vd)) + 10000 * (ug.num * un * vd + vg.num * vn * ud) == 10000
                * g * (ug.den * (ud * vd))
        }),
{
    let chroma = range_scale(full_range).chroma;
    let cn = chroma.num as int;
    let cd = chroma.den as int;
    let kr = red as int;
    let kb = blue as int;
    let kg = 10000 - kr - kb;
    let l = luma_of(kr, kb, r, g, b);
    let (un, ud) = chroma_of(kb, b, l, chroma);
    let (vn, vd) = chroma_of(kr, r, l, chroma);
    lemma_gain_fits(kb, kg, chroma);
    lemma_gain_fits(kr, kg, chroma);
    let (ug, ub) = (u.matrix@[1]@[1], u.matrix@[1]@[2]);
    let (vr, vg) = (u.matrix@[2]@[0], u.matrix@[2]@[1]);
    lemma_direct(l, r, 2 * (10000 - kr) * cn, cd);
    lemma_direct(l, b, 2 * (10000 - kb) * cn, cd);
    lemma_green(l, kr, kg, kb, r, g, b, ud, vd, cd);
    assert(ug.num == -(kb * ud)) by {
        assert(2 * kb * (10000 - kb) * cn == kb * (2 * (10000 - kb) * cn)) by (nonlinear_arith);
    }
    assert(vg.num == -(kr * vd)) by {
        assert(2 * kr * (10000 - kr) * cn == kr * (2 * (10000 - kr) * cn)) by (nonlinear_arith);
    }
}

/// One row of the conversion, as numerator and denominator: what the shader
/// makes of the samples `yn / yd`, `un / ud` and `vn / vd`. Black is taken off
/// luma, and the columns of the matrix weigh luma, the two chroma components and
/// one.
pub open spec fn row_of(
    u: ColorUniforms,
    row: int,
    yn: int,
    yd: int,
    un: int,
    ud: int,
    vn: int,
    vd: int,
) -> (int, int) {
    let (my, mu, mv, m1) = (
        u.matrix@[0]@[row],
        u.matrix@[1]@[row],
        u.matrix@[2]@[row],
        u.matrix@[3]@[row],
    );
    let black = u.offset@[1];
    let (an, ad) = (my.num * (yn * black.den - black.num * yd), my.den * (yd * black.den));
    let (bn, bd) = (mu.num * un, mu.den * ud);
    let (cn, cd) = (mv.num * vn, mv.den * vd);
    (
        (an * (bd * cd) + bn * (ad * cd) + cn * (ad * bd)) * m1.den + m1.num * (ad * (bd * cd)),
        ad * (bd * cd) * m1.den,
    )
}

/// Black, white, and the span of chroma, of 255: where a range keeps its
/// samples.
pub open spec fn range_of(full_range: bool) -> (int, int, int) {
    if full_range {
        (0, 255, 255)
    } else {
        (16, 235, 224)
    }
}

/// Without colour, luma alone decides: the three rows give the same value, zero
/// at the black of the range, one at its white, and in between in proportion.
/// So grey stays grey, whatever the space.
pub proof fn law_grey_stays_grey(
    u: ColorUniforms,
    red: i64,
    blue: i64,
    full_range: bool,
    y: int,
    row: int,
)
    requires
        0 < red,
        0 < blue,
        red + blue < 10000,
        u.converts(red as int, blue as int, full_range),
        0 <= row < 3,
    ensures
        ({
            let (black, white, _) = range_of(full_range);
            let (n, d) = row_of(u, row, y, 255, 0, 1, 0, 1);
            &&& d > 0
            &&& n * (white - black) == (y - black) * d
        }),
{
    let chroma = range_scale(full_range).chroma;
    let kg = 10000 - red - blue;
    lemma_gain_fits(blue as int, kg, chroma);
    lemma_gain_fits(red as int, kg, chroma);
    let (my, mu, mv, m1) = (
        u.matrix@[0]@[row],
        u.matrix@[1]@[row],
        u.matrix@[2]@[row],
        u.matrix@[3]@[row],
    );
    assert(my == range_scale(full_range).luma);
    assert(m1 == (Ratio { num: 0, den: 1 }));
    let black = u.offset@[1];
    let an = my.num * (y * black.den - black.num * 255);
    let ad = my.den * (255 * black.den);
    let rest = (mu.den * 1) * (mv.den * 1);
    assert(rest > 0) by (nonlinear_arith)
        requires
            mu.den > 0,
            mv.den > 0,
            rest == (mu.den * 1) * (mv.den * 1),
    ;
    let (lo, hi, _) = range_of(full_range);
    if full_range {
        assert(an == y && ad == 255) by (nonlinear_arith)
            requires
                an == my.num * (y * black.den - black.num * 255),
                ad == my.den * (255 * black.den),
                my.num == 1,
                my.den == 1,
                black.num == 0,
                black.den == 1,
        ;
    } else {
        assert(an == 255 * 255 * (y - 16) && ad == 219 * 255 * 255) by (nonlinear_arith)
            requires
                an == my.num * (y * black.den - black.num * 255),
                ad == my.den * (255 * black.den),
                my.num == 255,
                my.den == 219,
                black.num == 16,
                black.den == 255,
        ;
    }
    assert(ad > 0 && an * (hi - lo) == (y - lo) * ad) by (nonlinear_arith)
        requires
            full_range ==> an == y && ad == 255 && lo == 0 && hi == 255,
            !full_range ==> an == 255 * 255 * (y - 16) && ad == 219 * 255 * 255 && lo == 16 && hi
                == 235,
    ;
    let (n, d) = row_of(u, row, y, 255, 0, 1, 0, 1);
    assert(n == an * rest && d == ad * rest) by (nonlinear_arith)
        requires
            n == (an * rest + (mu.num * 0) * (ad * (mv.den * 1)) + (mv.num * 0) * (ad * (mu.den
                * 1))) * 1 + 0 * (ad * rest),
            d == ad * rest * 1,
    ;
    assert(d > 0) by (nonlinear_arith)
        requires
            d == ad * rest,
            ad > 0,
            rest > 0,
    ;
    assert(n * (hi - lo) == (y - lo) * d) by (nonlinear_arith)
        requires
            n == an * rest,
            d == ad * rest,
            an * (hi - lo) == (y - lo) * ad,
    ;
}

/// The conversion gives every colour back from its samples, in every range. The
/// colour is `r / n`, `g / n`, `b / n`. Its luma is the sum of the three by
/// their shares, and lies between the black and the white of the range; each
/// chroma sample is the distance of blue, or red, from luma, over twice the rest
/// of luma, in the span of the range. From these samples the three rows make red,
/// green and blue again, exactly.
pub proof fn law_samples_give_the_colour_back(
    u: ColorUniforms,
    red: i64,
    blue: i64,
    full_range: bool,
    r: int,
    g: int,
    b: int,
    n: int,
)
    requires
        0 < red,
        0 < blue,
        red + blue < 10000,
        u.converts(red as int, blue as int, full_range),
        n > 0,
    ensures
        ({
            let (black, white, span) = range_of(full_range);
            let l = red * r + (10000 - red - blue) * g + blue * b;
            let (yn, yd) = (black * (10000 * n) + (white - black) * l, 255 * (10000 * n));
            let (un, ud) = ((10000 * b - l) * span, 255 * (2 * (10000 - blue) * n));
            let (vn, vd) = ((10000 * r - l) * span, 255 * (2 * (10000 - red) * n));
            let (rn, rd) = row_of(u, 0, yn, yd, un, ud, vn, vd);
            let (gn, gd) = row_of(u, 1, yn, yd, un, ud, vn, vd);
            let (bn, bd) = row_of(u, 2, yn, yd, un, ud, vn, vd);
            &&& rd > 0 && gd > 0 && bd > 0
            &&& rn * n == r * rd
            &&& gn * n == g * gd
            &&& bn * n == b * bd
        }),
{
    let (black, white, span) = range_of(full_range);
    let kr = red as int;
    let kb = blue as int;
    let kg = 10000 - kr - kb;
    let l = kr * r + kg * g + kb * b;
    let (yn, yd) = (black * (10000 * n) + (white - black) * l, 255 * (10000 * n));
    let (un, ud) = ((10000 * b - l) * span, 255 * (2 * (10000 - kb) * n));
    let (vn, vd) = ((10000 * r - l) * span, 255 * (2 * (10000 - kr) * n));
    let chroma = range_scale(full_range).chroma;
    lemma_gain_fits(kb, kg, chroma);
    lemma_gain_fits(kr, kg, chroma);
    let cn = chroma.num as int;
    let cd = chroma.den as int;
    assert(cn * span == 255 * cd && cd > 0 && cn > 0);
    assert(yd > 0);
    lemma_chroma_sample(kb, b, l, n, span, cn, cd);
    lemma_chroma_sample(kr, r, l, n, span, cn, cd);
    let k = 10000 * n;
    let x = 10000 * b - l;
    let y = 10000 * r - l;
    // Luma, on every row.
    let luma = range_scale(full_range).luma;
    let low = range_scale(full_range).black;
    let an = luma.num * (yn * low.den - low.num * yd);
    let ad = luma.den * (yd * low.den);
    lemma_luma_sample(full_range, l, n);
    // Red.
    let (vr, vg) = (u.matrix@[2]@[0], u.matrix@[2]@[1]);
    let (ug, ub) = (u.matrix@[1]@[1], u.matrix@[1]@[2]);
    lemma_row(an, ad, 0 * un, 1 * ud, vr.num * vn, vr.den * vd, l, 0, y, k, r, n, 10000);
    // Blue.
    lemma_row(an, ad, ub.num * un, ub.den * ud, 0 * vn, 1 * vd, l, x, 0, k, b, n, 10000);
    // Green.
    assert(an * (k * kg) == (l * kg) * ad) by (nonlinear_arith)
        requires
            an * k == l * ad,
    ;
    assert(l * kg - kb * x - kr * y == 10000 * kg * g) by (nonlinear_arith)
        requires
            kg == 10000 - kr - kb,
            x == 10000 * b - l,
            y == 10000 * r - l,
            l == kr * r + kg * g + kb * b,
    ;
    lemma_green_sample(kb, kg, x, n, span, cn, cd);
    lemma_green_sample(kr, kg, y, n, span, cn, cd);
    assert(k * kg == (10000 * kg) * n) by (nonlinear_arith)
        requires
            k == 10000 * n,
    ;
    lemma_row(
        an,
        ad,
        ug.num * un,
        ug.den * ud,
        vg.num * vn,
        vg.den * vd,
        l * kg,
        -(kb * x),
        -(kr * y),
        k * kg,
        g,
        n,
        10000 * kg,
    );
}

/// Luma goes from its sample to what it stands for.
proof fn lemma_luma_sample(full_range: bool, l: int, n: int)
    requires
        n > 0,
    ensures
        ({
            let (black, white, _) = range_of(full_range);
            let (yn, yd) = (black * (10000 * n) + (white - black) * l, 255 * (10000 * n));
            let luma = range_scale(full_range).luma;
            let low = range_scale(full_range).black;
            let an = luma.num * (yn * low.den - low.num * yd);
            let ad = luma.den * (yd * low.den);
            &&& ad > 0
            &&& an * (10000 * n) == l * ad
        }),
{
    let k = 10000 * n;
    if full_range {
        let an = 1 * ((0 * k + 255 * l) * 1 - 0 * (255 * k));
        let ad = 1 * (255 * k * 1);
        assert(an * k == l * ad) by (nonlinear_arith)
            requires
                an == 255 * l,
                ad == 255 * k,
        ;
    } else {
        let an = 255 * ((16 * k + 219 * l) * 255 - 16 * (255 * k));
        let ad = 219 * (255 * k * 255);
        assert(an == 255 * (219 * l * 255));
        assert(an * k == l * ad) by (nonlinear_arith)
            requires
                an == 255 * (219 * l * 255),
                ad == 219 * (255 * k * 255),
        ;
    }
}

/// The row of a primary gets the distance of that primary from luma.
proof fn lemma_chroma_sample(k: int, p: int, l: int, n: int, span: int, cn: int, cd: int)
    requires
        0 < k < 10000,
        n > 0,
        cn * span == 255 * cd,
        cd > 0,
    ensures
        ({
            let m = (2 * (10000 - k) * cn, 10000 * cd);
            let s = ((10000 * p - l) * span, 255 * (2 * (10000 - k) * n));
            &&& s.1 > 0
            &&& m.1 * s.1 > 0
            &&& (m.0 * s.0) * (10000 * n) == (10000 * p - l) * (m.1 * s.1)
        }),
{
    let w = 2 * (10000 - k);
    let x = 10000 * p - l;
    let s1 = 255 * (w * n);
    assert(s1 > 0) by (nonlinear_arith)
        requires
            w > 0,
            n > 0,
            s1 == 255 * (w * n),
    ;
    assert(10000 * cd * s1 > 0) by (nonlinear_arith)
        requires
            cd > 0,
            s1 > 0,
    ;
    assert((w * cn) * (x * span) == w * x * (cn * span)) by (nonlinear_arith);
    assert((w * x * (255 * cd)) * (10000 * n) == x * (10000 * cd * (255 * (w * n))))
        by (nonlinear_arith);
}

/// The row of green gets what is left.
proof fn lemma_green_sample(k: int, kg: int, x: int, n: int, span: int, cn: int, cd: int)
    requires
        0 < k < 10000,
        0 < kg,
        n > 0,
        cn * span == 255 * cd,
        cd > 0,
    ensures
        ({
            let m = (-(2 * k * (10000 - k) * cn), kg * 10000 * cd);
            let s = (x * span, 255 * (2 * (10000 - k) * n));
            &&& m.1 * s.1 > 0
            &&& (m.0 * s.0) * (10000 * n * kg) == -(k * x) * (m.1 * s.1)
        }),
{
    let w = 10000 - k;
    let s1 = 255 * (2 * w * n);
    assert(s1 > 0) by (nonlinear_arith)
        requires
            w > 0,
            n > 0,
            s1 == 255 * (2 * w * n),
    ;
    let m1 = kg * 10000 * cd;
    assert(m1 > 0) by (nonlinear_arith)
        requires
            kg > 0,
            cd > 0,
            m1 == kg * 10000 * cd,
    ;
    assert(m1 * s1 > 0) by (nonlinear_arith)
        requires
            m1 > 0,
            s1 > 0,
    ;
    let q = 2 * k * w;
    assert((-(q * cn)) * (x * span) == -(q * x * (cn * span))) by (nonlinear_arith);
    let z = n * kg;
    assert(10000 * n * kg == 10000 * z) by (nonlinear_arith)
        requires
            z == n * kg,
    ;
    assert(m1 * s1 == 10000 * cd * (255 * (2 * w)) * z) by (nonlinear_arith)
        requires
            m1 == kg * 10000 * cd,
            s1 == 255 * (2 * w * n),
            z == n * kg,
    ;
    let e = k * x;
    assert(q * x == 2 * w * e) by (nonlinear_arith)
        requires
            q == 2 * k * w,
            e == k * x,
    ;
    assert(-(q * x * (255 * cd)) * (10000 * z) == -e * (10000 * cd * (255 * (2 * w)) * z))
        by (nonlinear_arith)
        requires
            q * x == 2 * w * e,
    ;
}

/// Three terms, each known over `k`, make a row known over `n`.
proof fn lemma_row(
    an: int,
    ad: int,
    bn: int,
    bd: int,
    cn: int,
    cd: int,
    a: int,
    b: int,
    c: int,
    k: int,
    p: int,
    n: int,
    t: int,
)
    requires
        ad > 0,
        bd > 0,
        cd > 0,
        an * k == a * ad,
        bn * k == b * bd,
        cn * k == c * cd,
        a + b + c == t * p,
        k == t * n,
        t > 0,
    ensures
        ({
            let num = (an * (bd * cd) + bn * (ad * cd) + cn * (ad * bd)) * 1 + 0 * (ad * (bd * cd));
            let den = ad * (bd * cd) * 1;
            &&& den > 0
            &&& num * n == p * den
        }),
{
    let den = ad * (bd * cd);
    let num = an * (bd * cd) + bn * (ad * cd) + cn * (ad * bd);
    assert(bd * cd > 0) by (nonlinear_arith)
        requires
            bd > 0,
            cd > 0,
    ;
    assert(den > 0) by (nonlinear_arith)
        requires
            ad > 0,
            bd * cd > 0,
            den == ad * (bd * cd),
    ;
    assert(an * (bd * cd) * k == a * den) by (nonlinear_arith)
        requires
            an * k == a * ad,
            den == ad * (bd * cd),
    ;
    assert(bn * (ad * cd) * k == b * den) by (nonlinear_arith)
        requires
            bn * k == b * bd,
            den == ad * (bd * cd),
    ;
    assert(cn * (ad * bd) * k == c * den) by (nonlinear_arith)
        requires
            cn * k == c * cd,
            den == ad * (bd * cd),
    ;
    assert(num * k == (a + b + c) * den) by (nonlinear_arith)
        requires
            num == an * (bd * cd) + bn * (ad * cd) + cn * (ad * bd),
            an * (bd * cd) * k == a * den,
            bn * (ad * cd) * k == b * den,
            cn * (ad * bd) * k == c * den,
    ;
    let x = num * n;
    let y = p * den;
    assert(t * x == t * y) by (nonlinear_arith)
        requires
            num * k == (t * p) * den,
            k == t * n,
            x == num * n,
            y == p * den,
    ;
    assert(x == y) by (nonlinear_arith)
        requires
            t * x == t * y,
            t > 0,
    ;
}

/// Each space weighs red and blue as its standard does: BT.601 by 0.299 and
/// 0.114, BT.2020 by 0.2627 and 0.0593, and every other number stands for BT.709
/// with 0.2126 and 0.0722.
pub proof fn law_spaces_have_their_shares(
    u: ColorUniforms,
    space: u32,
    full_range: bool,
    semi: bool,
)
    requires
        u.are_for(space, full_range, semi),
    ensures
        space == 0 ==> u.converts(2990, 1140, full_range),
        space == 2 ==> u.converts(2627, 593, full_range),
        space != 0 && space != 2 ==> u.converts(2126, 722, full_range),
        u.offset@[0].num == (if semi {
            u.offset@[0].den
        } else {
            0
        }),
        u.offset@[0].den > 0,
{
}

/// Numerator and denominator of the gains are exact.
proof fn lemma_gain_fits(k: int, g: int, chroma: Ratio)
    requires
        0 < k < 10000,
        0 < g < 10000,
        0 < chroma.num <= 255,
        0 < chroma.den <= 255,
    ensures
        direct_gain(k, chroma).num == 2 * (10000 - k) * chroma.num,
        direct_gain(k, chroma).den == 10000 * chroma.den,
        green_gain(k, g, chroma).num == -(2 * k * (10000 - k) * chroma.num),
        green_gain(k, g, chroma).den == g * 10000 * chroma.den,
        2 * (10000 - k) * chroma.num > 0,
        g * 10000 * chroma.den > 0,
{
    let c = chroma.num as int;
    let d = chroma.den as int;
    assert(0 < 2 * (10000 - k) * c <= 20000 * 255) by (nonlinear_arith)
        requires
            0 < k < 10000,
            0 < c <= 255,
    ;
    let p = 2 * k * (10000 - k);
    assert(0 < p <= 200_000_000) by (nonlinear_arith)
        requires
            0 < k < 10000,
            p == 2 * k * (10000 - k),
    ;
    assert(0 < p * c <= 200_000_000 * 255) by (nonlinear_arith)
        requires
            0 < p <= 200_000_000,
            0 < c <= 255,
    ;
    assert(0 < g * 10000 * d <= 100_000_000 * 255) by (nonlinear_arith)
        requires
            0 < g < 10000,
            0 < d <= 255,
    ;
}

/// The row of a primary that chroma gives directly.
proof fn lemma_direct(l: int, p: int, w: int, d: int)
    ensures
        l * (10000 * d * w) + 10000 * (w * ((10000 * p - l) * d)) == 10000 * p * (10000 * d * w),
{
    let z = d * w;
    assert(10000 * d * w == 10000 * z) by (nonlinear_arith)
        requires
            z == d * w,
    ;
    assert(w * ((10000 * p - l) * d) == (10000 * p - l) * z) by (nonlinear_arith)
        requires
            z == d * w,
    ;
    assert(l * (10000 * z) + 10000 * ((10000 * p - l) * z) == 10000 * p * (10000 * z))
        by (nonlinear_arith);
}

/// The row of green.
proof fn lemma_green(
    l: int,
    kr: int,
    kg: int,
    kb: int,
    r: int,
    g: int,
    b: int,
    ud: int,
    vd: int,
    d: int,
)
    requires
        kg == 10000 - kr - kb,
        l == kr * r + kg * g + kb * b,
    ensures
        l * (kg * 10000 * d * (ud * vd)) + 10000 * (-(kb * ud) * ((10000 * b - l) * d) * vd + -(kr
            * vd) * ((10000 * r - l) * d) * ud) == 10000 * g * (kg * 10000 * d * (ud * vd)),
{
    let z = d * (ud * vd);
    let x = 10000 * b - l;
    let y = 10000 * r - l;
    assert(kg * 10000 * d * (ud * vd) == 10000 * (kg * z)) by (nonlinear_arith)
        requires
            z == d * (ud * vd),
    ;
    assert(-(kb * ud) * (x * d) * vd == -(kb * x * z)) by (nonlinear_arith)
        requires
            z == d * (ud * vd),
    ;
    assert(-(kr * vd) * (y * d) * ud == -(kr * y * z)) by (nonlinear_arith)
        requires
            z == d * (ud * vd),
    ;
    assert(l * kg - kb * x - kr * y == 10000 * (kg * g)) by (nonlinear_arith)
        requires
            kg == 10000 - kr - kb,
            x == 10000 * b - l,
            y == 10000 * r - l,
            l == kr * r + kg * g + kb * b,
    ;
    assert(l * (kg * z) + (-(kb * x * z) + -(kr * y * z)) == (l * kg - kb * x - kr * y) * z)
        by (nonlinear_arith);
    assert(10000 * (kg * g) * z == 10000 * (g * (kg * z))) by (nonlinear_arith);
    assert(l * (10000 * (kg * z)) == 10000 * (l * (kg * z))) by (nonlinear_arith);
    assert(10000 * g * (10000 * (kg * z)) == 100_000_000 * (g * (kg * z))) by (nonlinear_arith);
}

/// What is opaque stays opaque: no sample adds to alpha, alpha adds to no
/// colour, and the places of the offset that nothing uses are zero.
pub proof fn law_alpha_passes_unchanged(u: ColorUniforms, red: int, blue: int, full_range: bool)
    requires
        u.converts(red, blue, full_range),
    ensures
        u.matrix@[3]@[3].num == u.matrix@[3]@[3].den && u.matrix@[3]@[3].den > 0,
        forall|c: int| 0 <= c < 3 ==> (#[trigger] u.matrix@[c])@[3].num == 0,
        forall|k: int| 0 <= k < 3 ==> (#[trigger] u.matrix@[3]@[k]).num == 0,
        u.offset@[2].num == 0 && u.offset@[3].num == 0,
{
}

/// The shader learns from one place of the offset whether the chroma components
/// share a plane: one where they do, zero where they do not.
pub proof fn law_shared_planes_are_told(u: ColorUniforms, semi: bool)
    requires
        u.is_semi(semi),
    ensures
        u.offset@[0].den > 0,
        semi ==> u.offset@[0].num == u.offset@[0].den,
        !semi ==> u.offset@[0].num == 0,
{
}

} // verus!
