use vstd::prelude::*;

verus! {

/// Number of control points of the colour palette.
pub const PALETTE_LEN: usize = 5;

/// The palette, from fast escape to slow escape: blue, cyan, green, yellow, red.
pub open spec fn palette_spec(i: int) -> (u8, u8, u8) {
    if i == 0 {
        (0x00, 0x00, 0xff)
    } else if i == 1 {
        (0x00, 0xff, 0xff)
    } else if i == 2 {
        (0x00, 0xff, 0x00)
    } else if i == 3 {
        (0xff, 0xff, 0x00)
    } else {
        (0xff, 0x00, 0x00)
    }
}

/// The colour of control point `i`.
pub fn palette(i: usize) -> (r: (u8, u8, u8))
    requires
        i < PALETTE_LEN,
    ensures
        r == palette_spec(i as int),
{
    if i == 0 {
        (0x00, 0x00, 0xff)
    } else if i == 1 {
        (0x00, 0xff, 0xff)
    } else if i == 2 {
        (0x00, 0xff, 0x00)
    } else if i == 3 {
        (0xff, 0xff, 0x00)
    } else {
        (0xff, 0x00, 0x00)
    }
}

/// `a + (b - a) * num / den`, rounded to the nearest integer, halves upward.
pub open spec fn lerp_channel(a: u8, b: u8, num: int, den: int) -> int {
    (2 * (a * den + (b - a) * num) + den) / (2 * den)
}

/// Position of `t = k / budget` scaled onto the palette's index range,
/// as whole part and remainder over `budget`.
pub open spec fn scaled_index(k: int, budget: int) -> int {
    ((PALETTE_LEN - 1) * k) / budget
}

pub open spec fn scaled_rem(k: int, budget: int) -> int {
    ((PALETTE_LEN - 1) * k) % budget
}

/// Whether the scaled position lies within one millionth above a control point.
pub open spec fn on_control_point(k: int, budget: int) -> bool {
    scaled_rem(k, budget) * 1_000_000 < budget
}

/// The colour for `t = k / budget`: a control point's colour when the scaled
/// position is (within tolerance) on it, else the channel-wise interpolation
/// between the two bracketing control points.
pub open spec fn gradient_spec(k: int, budget: int) -> (int, int, int) {
    let i = scaled_index(k, budget);
    let rem = scaled_rem(k, budget);
    let c = palette_spec(i);
    if on_control_point(k, budget) {
        (c.0 as int, c.1 as int, c.2 as int)
    } else {
        let d = palette_spec(i + 1);
        (
            lerp_channel(c.0, d.0, rem, budget),
            lerp_channel(c.1, d.1, rem, budget),
            lerp_channel(c.2, d.2, rem, budget),
        )
    }
}

proof fn lemma_lerp_bounds(a: u8, b: u8, num: int, den: int)
    requires
        0 <= num <= den,
        0 < den,
    ensures
        0 <= lerp_channel(a, b, num, den) <= 255,
        num == 0 ==> lerp_channel(a, b, num, den) == a,
{
    let v = a * den + (b - a) * num;
    assert(0 <= v <= 255 * den) by (nonlinear_arith)
        requires
            v == a * den + (b - a) * num,
            0 <= num <= den,
            0 <= a <= 255,
            0 <= b <= 255,
    ;
    assert(0 <= (2 * v + den) / (2 * den) <= 255) by (nonlinear_arith)
        requires
            0 <= v <= 255 * den,
            0 < den,
    ;
    if num == 0 {
        assert((2 * (a * den) + den) / (2 * den) == a) by (nonlinear_arith)
            requires
                0 < den,
                0 <= a,
        ;
    }
}

/// Every gradient colour has channels within `0..=255`.
pub proof fn lemma_gradient_range(k: int, budget: int)
    requires
        0 < budget,
        0 <= k <= budget,
    ensures
        0 <= gradient_spec(k, budget).0 <= 255,
        0 <= gradient_spec(k, budget).1 <= 255,
        0 <= gradient_spec(k, budget).2 <= 255,
{
    let rem = scaled_rem(k, budget);
    assert(0 <= rem < budget) by (nonlinear_arith)
        requires rem == ((PALETTE_LEN - 1) * k) % budget, 0 < budget;
    let i = scaled_index(k, budget);
    let c = palette_spec(i);
    let d = palette_spec(i + 1);
    lemma_lerp_bounds(c.0, d.0, rem, budget);
    lemma_lerp_bounds(c.1, d.1, rem, budget);
    lemma_lerp_bounds(c.2, d.2, rem, budget);
}

/// Channel values of an escape result's colour fit in a byte.
pub proof fn lemma_color_range(r: crate::mandelbrot::EscapeResult, budget: int)
    requires
        0 < budget,
        crate::mandelbrot::result_within(r, budget),
    ensures
        0 <= crate::mandelbrot::color_spec(r, budget).0 <= 255,
        0 <= crate::mandelbrot::color_spec(r, budget).1 <= 255,
        0 <= crate::mandelbrot::color_spec(r, budget).2 <= 255,
{
    if let crate::mandelbrot::EscapeResult::Escaped(k) = r {
        lemma_gradient_range(k as int, budget);
    }
}

/// One channel of the interpolation, in exact integer arithmetic.
fn lerp_u8(a: u8, b: u8, num: u128, den: u128) -> (r: u8)
    requires
        num < den,
        den <= u64::MAX,
    ensures
        r as int == lerp_channel(a, b, num as int, den as int),
{
    proof {
        lemma_lerp_bounds(a, b, num as int, den as int);
        assert((a as int) * (den as int) <= 255 * 0x1_0000_0000_0000_0000) by (nonlinear_arith)
            requires
                a <= 255,
                den <= 0xffff_ffff_ffff_ffff,
        ;
        assert((a as int) * (num as int) <= 255 * 0x1_0000_0000_0000_0000) by (nonlinear_arith)
            requires
                a <= 255,
                num <= 0xffff_ffff_ffff_ffff,
        ;
        assert((b as int) * (num as int) <= 255 * 0x1_0000_0000_0000_0000) by (nonlinear_arith)
            requires
                b <= 255,
                num <= 0xffff_ffff_ffff_ffff,
        ;
    }
    let base: u128 = a as u128 * den;
    let v: u128 = if b >= a {
        proof {
            assert(((b - a) as int) * (num as int) <= 255 * 0x1_0000_0000_0000_0000) by (nonlinear_arith)
                requires
                    b - a <= 255,
                    num <= 0xffff_ffff_ffff_ffff,
            ;
        }
        base + (b - a) as u128 * num
    } else {
        proof {
            assert(((a - b) as int) * (num as int) <= (a as int) * (den as int)) by (nonlinear_arith)
                requires
                    b < a,
                    num < den,
            ;
        }
        base - (a - b) as u128 * num
    };
    assert(v as int == (a as int) * (den as int) + ((b as int) - (a as int)) * (num as int))
        by (nonlinear_arith)
        requires
            b >= a ==> v as int == (a as int) * (den as int) + ((b - a) as int) * (num as int),
            b < a ==> v as int == (a as int) * (den as int) - ((a - b) as int) * (num as int),
    ;
    let q: u128 = (2 * v + den) / (2 * den);
    q as u8
}

/// The colour that the gradient gives to `t = k / budget`, for `0 <= k <= budget`.
pub fn gradient(k: usize, budget: usize) -> (r: (u8, u8, u8))
    requires
        0 < budget,
        k <= budget,
    ensures
        (r.0 as int, r.1 as int, r.2 as int) == gradient_spec(k as int, budget as int),
        k == 0 ==> r == palette_spec(0),
        k == budget ==> r == palette_spec(PALETTE_LEN - 1),
{
    let scaled: u128 = (PALETTE_LEN - 1) as u128 * k as u128;
    let den: u128 = budget as u128;
    let i: u128 = scaled / den;
    let rem: u128 = scaled % den;
    proof {
        assert(i <= 4) by (nonlinear_arith)
            requires
                i == scaled / den,
                scaled == 4 * k,
                k <= den,
                0 < den,
        ;
        assert(k == den ==> i == 4 && rem == 0) by (nonlinear_arith)
            requires
                i == scaled / den,
                rem == scaled % den,
                scaled == 4 * k,
                0 < den,
        ;
        assert(k == 0 ==> i == 0 && rem == 0) by (nonlinear_arith)
            requires
                i == scaled / den,
                rem == scaled % den,
                scaled == 4 * k,
                0 < den,
        ;
    }
    let c = palette(i as usize);
    if rem * 1_000_000 < den {
        c
    } else {
        proof {
            assert(i < 4) by (nonlinear_arith)
                requires
                    i == scaled / den,
                    rem == scaled % den,
                    rem > 0,
                    scaled == 4 * k,
                    k <= den,
                    0 < den,
            ;
        }
        let d = palette(i as usize + 1);
        (lerp_u8(c.0, d.0, rem, den), lerp_u8(c.1, d.1, rem, den), lerp_u8(c.2, d.2, rem, den))
    }
}

} // verus!
