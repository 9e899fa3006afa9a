//! The color model: a hue in degrees, and the circular mixing of hues.
//!
//! A live cell's color is a hue in `[0, 360)` with saturation and value fixed
//! at maximum. Mixing a collection of hues must respect the circular nature
//! of the hue wheel: the mix of 350 degrees and 10 degrees is 0 degrees, not
//! 180. To that end every hue is embedded as an integer point on the diamond
//! `|x| + |y| = 90` (a piecewise-linear unit circle), contributions are
//! summed as vectors, and the direction of the sum is mapped back to a hue.
//! The embedding is exact on integers, so mixing a single hue returns that
//! hue unchanged, and symmetric pairs mix to their exact circular midpoint.

use vstd::arithmetic::div_mod::{
    lemma_div_multiples_vanish, lemma_div_pos_is_pos, lemma_multiply_divide_lt,
};
use vstd::prelude::*;

verus! {

/// A fully saturated, fully bright color, identified by its hue in degrees.
#[derive(Clone, Copy, Debug, PartialEq, Eq, Structural)]
pub struct Color {
    pub hue: u16,
}

impl Color {
    /// A hue is a number of degrees on the color wheel.
    pub open spec fn wf(&self) -> bool {
        self.hue < 360
    }
}

/// The horizontal coordinate of the hue's point on the diamond `|x|+|y| = 90`.
pub open spec fn diam_x(h: int) -> int {
    if h <= 180 {
        90 - h
    } else {
        h - 270
    }
}

/// The vertical coordinate of the hue's point on the diamond `|x|+|y| = 90`.
pub open spec fn diam_y(h: int) -> int {
    if h <= 90 {
        h
    } else if h <= 270 {
        180 - h
    } else {
        h - 360
    }
}

/// The hue whose diamond point lies on the ray from the origin through
/// `(x, y)`; 0 for the origin itself, where no direction is defined.
pub open spec fn hue_of_vec(x: int, y: int) -> int {
    if x == 0 && y == 0 {
        0
    } else if x > 0 && y >= 0 {
        (90 * y) / (x + y)
    } else if x <= 0 && y > 0 {
        90 + (90 * -x) / (y - x)
    } else if x < 0 && y <= 0 {
        180 + (90 * -y) / (-x - y)
    } else {
        270 + (90 * x) / (x - y)
    }
}

/// The sum of the horizontal diamond coordinates of a collection of hues.
pub open spec fn sum_x(hues: Seq<u16>) -> int
    decreases hues.len(),
{
    if hues.len() == 0 {
        0
    } else {
        sum_x(hues.drop_last()) + diam_x(hues.last() as int)
    }
}

/// The sum of the vertical diamond coordinates of a collection of hues.
pub open spec fn sum_y(hues: Seq<u16>) -> int
    decreases hues.len(),
{
    if hues.len() == 0 {
        0
    } else {
        sum_y(hues.drop_last()) + diam_y(hues.last() as int)
    }
}

/// The circular mix of a collection of hues: the direction of the sum of
/// their diamond points.
pub open spec fn mixed_hue(hues: Seq<u16>) -> int {
    hue_of_vec(sum_x(hues), sum_y(hues))
}

/// The direction of any vector is a hue in `[0, 360)`.
pub proof fn lemma_hue_of_vec_range(x: int, y: int)
    ensures
        0 <= hue_of_vec(x, y) < 360,
{
    if x == 0 && y == 0 {
    } else if x > 0 && y >= 0 {
        lemma_div_pos_is_pos(90 * y, x + y);
        lemma_multiply_divide_lt(90 * y, x + y, 90);
    } else if x <= 0 && y > 0 {
        lemma_div_pos_is_pos(90 * -x, y - x);
        lemma_multiply_divide_lt(90 * -x, y - x, 90);
    } else if x < 0 && y <= 0 {
        lemma_div_pos_is_pos(90 * -y, -x - y);
        lemma_multiply_divide_lt(90 * -y, -x - y, 90);
    } else {
        lemma_div_pos_is_pos(90 * x, x - y);
        lemma_multiply_divide_lt(90 * x, x - y, 90);
    }
}

/// The diamond embedding is exactly invertible: the direction of a hue's own
/// diamond point is that hue.
pub proof fn lemma_hue_roundtrip(h: int)
    requires
        0 <= h < 360,
    ensures
        hue_of_vec(diam_x(h), diam_y(h)) == h,
{
    let x = diam_x(h);
    let y = diam_y(h);
    if h < 90 {
        assert(x > 0 && y >= 0);
        assert(x + y == 90);
        lemma_div_multiples_vanish(h, 90);
        assert((90 * h) / 90 == h);
    } else if h == 90 {
        assert(x == 0 && y == 90);
        lemma_div_multiples_vanish(0, 90);
    } else if h < 180 {
        assert(x <= 0 && y > 0);
        assert(y - x == 90);
        lemma_div_multiples_vanish(h - 90, 90);
    } else if h == 180 {
        assert(x == -90 && y == 0);
        lemma_div_multiples_vanish(0, 90);
    } else if h < 270 {
        assert(x < 0 && y <= 0);
        assert(-x - y == 90);
        lemma_div_multiples_vanish(h - 180, 90);
    } else if h == 270 {
        assert(x == 0 && y == -90);
        lemma_div_multiples_vanish(0, 90);
    } else {
        assert(x > 0 && y < 0);
        assert(x - y == 90);
        lemma_div_multiples_vanish(h - 270, 90);
    }
}

/// Mixing a single hue returns that hue unchanged.
pub proof fn lemma_mix_single(h: u16)
    requires
        h < 360,
    ensures
        mixed_hue(seq![h]) == h as int,
{
    let s = seq![h];
    assert(s.drop_last() =~= Seq::<u16>::empty());
    assert(sum_x(Seq::<u16>::empty()) == 0);
    assert(sum_y(Seq::<u16>::empty()) == 0);
    assert(s.last() == h);
    assert(sum_x(s) == diam_x(h as int));
    assert(sum_y(s) == diam_y(h as int));
    lemma_hue_roundtrip(h as int);
}

/// The diamond point of a hue, as machine integers.
fn diam_coords(hue: u16) -> (p: (i32, i32))
    requires
        hue < 360,
    ensures
        p.0 as int == diam_x(hue as int),
        p.1 as int == diam_y(hue as int),
{
    let h = hue as i32;
    let x = if h <= 180 {
        90 - h
    } else {
        h - 270
    };
    let y = if h <= 90 {
        h
    } else if h <= 270 {
        180 - h
    } else {
        h - 360
    };
    (x, y)
}

/// The hue of the direction of `(x, y)`, as machine integers.
fn hue_from_vec(x: i32, y: i32) -> (h: u16)
    requires
        -1000 <= x <= 1000,
        -1000 <= y <= 1000,
    ensures
        h as int == hue_of_vec(x as int, y as int),
        h < 360,
{
    proof {
        lemma_hue_of_vec_range(x as int, y as int);
    }
    if x == 0 && y == 0 {
        0
    } else if x > 0 && y >= 0 {
        let q = (90 * (y as u32)) / ((x + y) as u32);
        q as u16
    } else if x <= 0 && y > 0 {
        let q = (90 * ((-x) as u32)) / ((y - x) as u32);
        90 + q as u16
    } else if x < 0 && y <= 0 {
        let q = (90 * ((-y) as u32)) / ((-x - y) as u32);
        180 + q as u16
    } else {
        let q = (90 * (x as u32)) / ((x - y) as u32);
        270 + q as u16
    }
}

/// The circular mix of the given hues; 0 when their diamond points cancel
/// out exactly (and in particular when no hue is given).
pub fn mix_colors(hues: &Vec<u16>) -> (c: Color)
    requires
        hues@.len() <= 8,
        forall|i: int| 0 <= i < hues@.len() ==> hues@[i] < 360,
    ensures
        c.hue as int == mixed_hue(hues@),
        c.wf(),
{
    let mut x: i32 = 0;
    let mut y: i32 = 0;
    let mut i: usize = 0;
    while i < hues.len()
        invariant
            0 <= i <= hues@.len() <= 8,
            forall|j: int| 0 <= j < hues@.len() ==> hues@[j] < 360,
            x as int == sum_x(hues@.take(i as int)),
            y as int == sum_y(hues@.take(i as int)),
            -90 * i <= x as int <= 90 * i,
            -90 * i <= y as int <= 90 * i,
        decreases hues@.len() - i,
    {
        let (dx, dy) = diam_coords(hues[i]);
        proof {
            assert(hues@.take(i + 1).drop_last() =~= hues@.take(i as int));
            assert(hues@.take(i + 1).last() == hues@[i as int]);
        }
        x = x + dx;
        y = y + dy;
        i = i + 1;
    }
    proof {
        assert(hues@.take(hues@.len() as int) =~= hues@);
    }
    let h = hue_from_vec(x, y);
    Color { hue: h }
}

} // verus!
