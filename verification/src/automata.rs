//! The automaton: a grid of cells evolving under a birth/survival rule.
//!
//! The grid is a row-major vector of `width * height` cells. Each simulation
//! tick applies the transition rule to every cell against the previous
//! generation only, then replaces the grid wholesale. Cells on the edge read
//! their missing neighbors through mirror padding: an index one step outside
//! the grid reflects back across the boundary, so every cell, corners
//! included, has exactly 8 well-defined neighbors. On a longer, independent
//! tick a glider pattern is stamped into a randomly chosen all-dead region,
//! when one exists.

use crate::cell::{deref_cells, transition_spec, Cell};
use crate::hue::Color;
use crate::rng::{now_millis, rng_below, rng_bool, rng_from_seed};
use vstd::arithmetic::div_mod::lemma_fundamental_div_mod_converse;
use vstd::prelude::*;

verus! {

/// Default milliseconds between two simulation steps.
pub const TIME_STEP_MS: u64 = 100;

/// Default milliseconds between two glider injections.
pub const GLIDER_TIME_STEP_MS: u64 = 500;

/// The side of the all-dead square that a glider needs: the 3-by-3 pattern
/// plus a one-cell margin on every side.
pub const GLIDER_AREA: usize = 5;

/// Why an automaton could not be built.
#[derive(Clone, Copy, Debug, PartialEq, Eq, Structural)]
pub enum AutomataError {
    /// A requested dimension was zero.
    ZeroDimension,
    /// A supplied cell vector did not hold exactly `width * height` cells.
    SizeMismatch,
    /// A requested tick interval was zero.
    ZeroInterval,
}

/// A coordinate one step outside `[0, dim)` reflects back across the border.
pub open spec fn mirror(i: int, dim: int) -> int {
    if i < 0 {
        -i - 1
    } else if i >= dim {
        2 * dim - i - 1
    } else {
        i
    }
}

/// The cell in row `r`, column `c` of a row-major grid of width `w`.
pub open spec fn grid_at(g: Seq<Cell>, w: int, r: int, c: int) -> Cell {
    g[r * w + c]
}

/// The row-major 3-by-3 window centered on `(r, c)`, with out-of-grid
/// coordinates mirrored back inside.
pub open spec fn window_at(g: Seq<Cell>, w: int, h: int, r: int, c: int) -> Seq<Cell> {
    Seq::new(9, |k: int| grid_at(g, w, mirror(r + k / 3 - 1, h), mirror(c + k % 3 - 1, w)))
}

/// One whole generation: every cell's next state, each computed from the
/// same previous grid.
pub open spec fn step_spec(
    g: Seq<Cell>,
    w: int,
    h: int,
    survival: Seq<usize>,
    birth: Seq<usize>,
) -> Seq<Cell> {
    Seq::new(g.len(), |idx: int| transition_spec(window_at(g, w, h, idx / w, idx % w), survival, birth))
}

/// Row and column land inside the grid exactly when their flat index does.
proof fn lemma_rc_index(w: int, h: int, r: int, c: int)
    requires
        0 < w,
        0 <= r < h,
        0 <= c < w,
    ensures
        0 <= r * w + c < h * w,
        (r * w + c) / w == r,
        (r * w + c) % w == c,
{
    assert(0 <= r * w + c < h * w) by (nonlinear_arith)
        requires
            0 < w,
            0 <= r < h,
            0 <= c < w,
    ;
    lemma_fundamental_div_mod_converse(r * w + c, w, r, c);
}

/// A mirrored coordinate from one step outside the grid lies inside it.
pub proof fn lemma_mirror_in_range(i: int, dim: int)
    requires
        1 <= dim,
        -1 <= i <= dim,
    ensures
        0 <= mirror(i, dim) < dim,
{
}

/// Mirror boundary symmetry: the corner cell at `(0, 0)` has all 8 of its
/// window entries well defined — each reads a cell whose mirrored row and
/// column lie inside the grid — and its neighbor at offset `(-1, -1)`
/// reflects back to the corner cell itself.
pub proof fn lemma_corner_window(g: Seq<Cell>, w: int, h: int)
    requires
        1 <= w,
        1 <= h,
        g.len() == w * h,
    ensures
        window_at(g, w, h, 0, 0).len() == 9,
        window_at(g, w, h, 0, 0)[0] == grid_at(g, w, 0, 0),
        forall|k: int|
            0 <= k < 9 ==> window_at(g, w, h, 0, 0)[k] == grid_at(
                g,
                w,
                #[trigger] mirror(k / 3 - 1, h),
                mirror(k % 3 - 1, w),
            ),
        forall|k: int|
            0 <= k < 9 ==> 0 <= #[trigger] mirror(k / 3 - 1, h) < h && 0 <= mirror(
                k % 3 - 1,
                w,
            ) < w,
{
    assert forall|k: int| 0 <= k < 9 implies 0 <= #[trigger] mirror(k / 3 - 1, h) < h && 0
        <= mirror(k % 3 - 1, w) < w by {
        lemma_mirror_in_range(k / 3 - 1, h);
        lemma_mirror_in_range(k % 3 - 1, w);
    }
}

/// The colored automaton: a grid, its birth/survival rule, and the two
/// elapsed-time accumulators that drive stepping and glider injection.
#[derive(Debug)]
pub struct Automata {
    grid: Vec<Cell>,
    width: usize,
    height: usize,
    birth: Vec<usize>,
    survival: Vec<usize>,
    sim_interval: u64,
    glider_interval: u64,
    sim_elapsed: u64,
    glider_elapsed: u64,
    last_now: u64,
    rng: fastrand::Rng,
}

impl Automata {
    /// The cells of the grid, row-major.
    pub closed spec fn spec_grid(&self) -> Seq<Cell> {
        self.grid@
    }

    /// The grid width.
    pub closed spec fn spec_width(&self) -> int {
        self.width as int
    }

    /// The grid height.
    pub closed spec fn spec_height(&self) -> int {
        self.height as int
    }

    /// The neighbor counts at which a dead cell is born.
    pub closed spec fn spec_birth(&self) -> Seq<usize> {
        self.birth@
    }

    /// The neighbor counts at which a live cell survives.
    pub closed spec fn spec_survival(&self) -> Seq<usize> {
        self.survival@
    }

    /// Milliseconds between two simulation steps.
    pub closed spec fn spec_sim_interval(&self) -> u64 {
        self.sim_interval
    }

    /// Milliseconds between two glider injections.
    pub closed spec fn spec_glider_interval(&self) -> u64 {
        self.glider_interval
    }

    /// Milliseconds accumulated toward the next simulation step.
    pub closed spec fn spec_sim_elapsed(&self) -> u64 {
        self.sim_elapsed
    }

    /// Milliseconds accumulated toward the next glider injection.
    pub closed spec fn spec_glider_elapsed(&self) -> u64 {
        self.glider_elapsed
    }

    /// The wall-clock reading at the last `update` call.
    pub closed spec fn spec_last_now(&self) -> u64 {
        self.last_now
    }

    /// Well-formedness: positive dimensions, a full grid of well-formed
    /// cells, and accumulators strictly below their firing intervals.
    pub open spec fn wf(&self) -> bool {
        &&& 0 < self.spec_width()
        &&& 0 < self.spec_height()
        &&& self.spec_grid().len() == self.spec_width() * self.spec_height()
        &&& forall|i: int| 0 <= i < self.spec_grid().len() ==> self.spec_grid()[i].wf()
        &&& 0 < self.spec_sim_interval()
        &&& 0 < self.spec_glider_interval()
        &&& self.spec_sim_elapsed() < self.spec_sim_interval()
        &&& self.spec_glider_elapsed() < self.spec_glider_interval()
    }

    /// The two structs agree on dimensions, rule sets and tick intervals.
    pub open spec fn same_config(pre: Automata, post: Automata) -> bool {
        &&& post.spec_width() == pre.spec_width()
        &&& post.spec_height() == pre.spec_height()
        &&& post.spec_birth() == pre.spec_birth()
        &&& post.spec_survival() == pre.spec_survival()
        &&& post.spec_sim_interval() == pre.spec_sim_interval()
        &&& post.spec_glider_interval() == pre.spec_glider_interval()
    }
}

/// A coordinate plus an offset in `{-1, 0, 1}`, mirrored back into the grid.
fn mirrored(i: usize, d: i64, dim: usize) -> (m: usize)
    requires
        1 <= dim,
        i < dim,
        -1 <= d <= 1,
    ensures
        m < dim,
        m as int == mirror(i as int + d, dim as int),
{
    if d < 0 {
        if i == 0 {
            0
        } else {
            i - 1
        }
    } else {
        let j = i + (d as usize);
        if j >= dim {
            dim - 1
        } else {
            j
        }
    }
}

/// The next generation of the whole grid, read entirely from `grid`.
fn compute_next(
    grid: &Vec<Cell>,
    width: usize,
    height: usize,
    survival: &Vec<usize>,
    birth: &Vec<usize>,
) -> (out: Vec<Cell>)
    requires
        0 < width,
        0 < height,
        grid@.len() == width * height,
        forall|i: int| 0 <= i < grid@.len() ==> grid@[i].wf(),
    ensures
        out@ == step_spec(grid@, width as int, height as int, survival@, birth@),
        out@.len() == grid@.len(),
        forall|i: int| 0 <= i < out@.len() ==> out@[i].wf(),
{
    let ghost g0 = grid@;
    let ghost wi = width as int;
    let ghost hi = height as int;
    let total: usize = grid.len();
    let mut out: Vec<Cell> = Vec::new();
    let mut r: usize = 0;
    while r < height
        invariant
            0 < width,
            0 < height,
            r <= height,
            grid@ == g0,
            g0.len() == width * height,
            total == g0.len(),
            forall|i: int| 0 <= i < g0.len() ==> g0[i].wf(),
            wi == width as int,
            hi == height as int,
            out@.len() == r * width,
            forall|idx: int|
                0 <= idx < out@.len() ==> out@[idx] == transition_spec(
                    window_at(g0, wi, hi, idx / wi, idx % wi),
                    survival@,
                    birth@,
                ),
            forall|idx: int| 0 <= idx < out@.len() ==> out@[idx].wf(),
        decreases height - r,
    {
        let mut c: usize = 0;
        while c < width
            invariant
                0 < width,
                0 < height,
                r < height,
                c <= width,
                grid@ == g0,
                g0.len() == width * height,
                total == g0.len(),
                forall|i: int| 0 <= i < g0.len() ==> g0[i].wf(),
                wi == width as int,
                hi == height as int,
                out@.len() == r * width + c,
                forall|idx: int|
                    0 <= idx < out@.len() ==> out@[idx] == transition_spec(
                        window_at(g0, wi, hi, idx / wi, idx % wi),
                        survival@,
                        birth@,
                    ),
                forall|idx: int| 0 <= idx < out@.len() ==> out@[idx].wf(),
            decreases width - c,
        {
            proof {
                lemma_rc_index(wi, hi, r as int, c as int);
            }
            let mut win: Vec<&Cell> = Vec::new();
            let mut k: usize = 0;
            while k < 9
                invariant
                    0 < width,
                    0 < height,
                    r < height,
                    c < width,
                    grid@ == g0,
                    g0.len() == width * height,
                    forall|i: int| 0 <= i < g0.len() ==> g0[i].wf(),
                    wi == width as int,
                    hi == height as int,
                    total == g0.len(),
                    k <= 9,
                    win@.len() == k,
                    forall|j: int|
                        0 <= j < k ==> *win@[j] == window_at(g0, wi, hi, r as int, c as int)[j],
                    forall|j: int| 0 <= j < k ==> win@[j].wf(),
                decreases 9 - k,
            {
                let dr = (k / 3) as i64 - 1;
                let dc = (k % 3) as i64 - 1;
                let rr = mirrored(r, dr, height);
                let cc = mirrored(c, dc, width);
                proof {
                    lemma_rc_index(wi, hi, rr as int, cc as int);
                    assert(hi * wi == wi * hi) by (nonlinear_arith);
                    assert((rr as int) * wi + (cc as int) < g0.len());
                }
                let idx2 = rr * width + cc;
                win.push(&grid[idx2]);
                proof {
                    assert(*win@[k as int] == window_at(g0, wi, hi, r as int, c as int)[k as int]);
                }
                k = k + 1;
            }
            let cell = crate::cell::with_neighbors(win, survival.as_slice(), birth.as_slice());
            proof {
                assert(deref_cells(win@) =~= window_at(g0, wi, hi, r as int, c as int));
            }
            out.push(cell);
            proof {
                assert forall|idx: int| 0 <= idx < out@.len() implies out@[idx] == transition_spec(
                    window_at(g0, wi, hi, idx / wi, idx % wi),
                    survival@,
                    birth@,
                ) by {
                    if idx == r * wi + c {
                        lemma_rc_index(wi, hi, r as int, c as int);
                    }
                }
            }
            c = c + 1;
        }
        proof {
            assert((r + 1) * width == r * width + width) by (nonlinear_arith);
        }
        r = r + 1;
    }
    proof {
        assert(out@.len() == height * width);
        assert(height * width == width * height) by (nonlinear_arith);
        assert(out@ =~= step_spec(g0, wi, hi, survival@, birth@));
    }
    out
}

impl Automata {
    /// Advances the grid one generation: every cell's new state is computed
    /// from the previous grid snapshot only, then the grid is replaced
    /// atomically.
    pub fn step(&mut self)
        requires
            old(self).wf(),
        ensures
            final(self).wf(),
            final(self).spec_grid() == step_spec(
                old(self).spec_grid(),
                old(self).spec_width(),
                old(self).spec_height(),
                old(self).spec_survival(),
                old(self).spec_birth(),
            ),
            Automata::same_config(*old(self), *final(self)),
            final(self).spec_sim_elapsed() == old(self).spec_sim_elapsed(),
            final(self).spec_glider_elapsed() == old(self).spec_glider_elapsed(),
            final(self).spec_last_now() == old(self).spec_last_now(),
    {
        let next = compute_next(&self.grid, self.width, self.height, &self.survival, &self.birth);
        self.grid = next;
    }

    /// The color of every cell, row-major: `None` for a dead cell, the
    /// cell's color for a live one.
    pub fn colors(&self) -> (out: Vec<Option<Color>>)
        requires
            self.wf(),
        ensures
            out@.len() == self.spec_width() * self.spec_height(),
            forall|i: int|
                0 <= i < out@.len() ==> out@[i] == match self.spec_grid()[i] {
                    Cell::Alive(color) => Some(color),
                    Cell::Dead => None::<Color>,
                },
    {
        let mut out: Vec<Option<Color>> = Vec::new();
        let mut i: usize = 0;
        while i < self.grid.len()
            invariant
                self.wf(),
                i <= self.spec_grid().len(),
                out@.len() == i,
                forall|j: int|
                    0 <= j < i ==> out@[j] == match self.spec_grid()[j] {
                        Cell::Alive(color) => Some(color),
                        Cell::Dead => None::<Color>,
                    },
            decreases self.spec_grid().len() - i,
        {
            match &self.grid[i] {
                Cell::Alive(color) => out.push(Some(*color)),
                Cell::Dead => out.push(None),
            }
            i = i + 1;
        }
        out
    }

    /// The grid width.
    pub fn width(&self) -> (w: usize)
        ensures
            w as int == self.spec_width(),
    {
        self.width
    }

    /// The grid height.
    pub fn height(&self) -> (h: usize)
        ensures
            h as int == self.spec_height(),
    {
        self.height
    }

    /// The neighbor counts at which a dead cell is born.
    pub fn birth(&self) -> (b: &Vec<usize>)
        ensures
            b@ == self.spec_birth(),
    {
        &self.birth
    }

    /// The neighbor counts at which a live cell survives.
    pub fn survival(&self) -> (s: &Vec<usize>)
        ensures
            s@ == self.spec_survival(),
    {
        &self.survival
    }

    /// Milliseconds between two simulation steps.
    pub fn sim_interval(&self) -> (v: u64)
        ensures
            v == self.spec_sim_interval(),
    {
        self.sim_interval
    }

    /// Milliseconds between two glider injections.
    pub fn glider_interval(&self) -> (v: u64)
        ensures
            v == self.spec_glider_interval(),
    {
        self.glider_interval
    }
}

/// A candidate glider region: a 5-by-5 square whose anchor keeps it inside
/// the grid.
pub open spec fn valid_region(w: int, h: int, i: int, j: int) -> bool {
    0 <= i && i + 5 <= h && 0 <= j && j + 5 <= w
}

/// The 5-by-5 region anchored at `(i, j)` holds dead cells only.
pub open spec fn region_dead(g: Seq<Cell>, w: int, i: int, j: int) -> bool {
    forall|a: int, b: int|
        0 <= a < 5 && 0 <= b < 5 ==> #[trigger] grid_at(g, w, i + a, j + b) is Dead
}

/// Some candidate region of the grid is entirely dead.
pub open spec fn has_dead_region(g: Seq<Cell>, w: int, h: int) -> bool {
    exists|i: int, j: int| valid_region(w, h, i, j) && #[trigger] region_dead(g, w, i, j)
}

/// The four glider orientations, as 9-bit row-major masks over their
/// 3-by-3 patterns.
pub open spec fn glider_mask(p: int) -> u16 {
    if p == 0 {
        428
    } else if p == 1 {
        458
    } else if p == 2 {
        107
    } else {
        167
    }
}

/// Whether cell `(a, b)` of glider pattern `p` is alive.
pub open spec fn glider_on(p: int, a: int, b: int) -> bool {
    (glider_mask(p) >> ((3 * a + b) as u16)) & 1u16 == 1u16
}

/// Whether the flat index lies in the 3-by-3 stamp centered in the region
/// anchored at `(i, j)`.
pub open spec fn in_stamp(w: int, i: int, j: int, idx: int) -> bool {
    i + 1 <= idx / w < i + 4 && j + 1 <= idx % w < j + 4
}

/// How one stamped pattern cell relates the old grid to the new: a live
/// pattern cell becomes alive with some well-formed color, a dead pattern
/// cell is left as it was.
pub open spec fn stamp_cell_ok(
    pre: Seq<Cell>,
    post: Seq<Cell>,
    w: int,
    i: int,
    j: int,
    p: int,
    a: int,
    b: int,
) -> bool {
    if glider_on(p, a, b) {
        grid_at(post, w, i + 1 + a, j + 1 + b) is Alive && grid_at(post, w, i + 1 + a, j + 1 + b).wf()
    } else {
        grid_at(post, w, i + 1 + a, j + 1 + b) == grid_at(pre, w, i + 1 + a, j + 1 + b)
    }
}

/// Pattern `p` was stamped into the center of the region anchored at
/// `(i, j)`, and every cell outside that 3-by-3 stamp is unchanged.
pub open spec fn stamped(pre: Seq<Cell>, post: Seq<Cell>, w: int, i: int, j: int, p: int) -> bool {
    &&& post.len() == pre.len()
    &&& forall|idx: int| 0 <= idx < pre.len() && !in_stamp(w, i, j, idx) ==> post[idx] == pre[idx]
    &&& forall|a: int, b: int|
        0 <= a < 3 && 0 <= b < 3 ==> #[trigger] stamp_cell_ok(pre, post, w, i, j, p, a, b)
}

/// What one glider injection does to the grid: nothing when the grid is too
/// small or holds no all-dead candidate region; otherwise exactly one glider
/// pattern is stamped into the center of one such region.
pub open spec fn glider_post(pre: Seq<Cell>, post: Seq<Cell>, w: int, h: int) -> bool {
    if w < 5 || h < 5 || !has_dead_region(pre, w, h) {
        post == pre
    } else {
        exists|i: int, j: int, p: int|
            valid_region(w, h, i, j) && region_dead(pre, w, i, j) && 0 <= p < 4 && #[trigger] stamped(
                pre,
                post,
                w,
                i,
                j,
                p,
            )
    }
}

/// Whether cell `(a, b)` of glider pattern `p` is alive.
fn glider_on_ex(p: usize, a: usize, b: usize) -> (r: bool)
    requires
        p < 4,
        a < 3,
        b < 3,
    ensures
        r == glider_on(p as int, a as int, b as int),
{
    let m: u16 = if p == 0 {
        428
    } else if p == 1 {
        458
    } else if p == 2 {
        107
    } else {
        167
    };
    let k = 3 * a + b;
    ((m >> (k as u16)) & 1) == 1
}

impl Automata {
    /// Whether the 5-by-5 region anchored at `(i, j)` holds dead cells only.
    fn region_is_dead(&self, i: usize, j: usize) -> (r: bool)
        requires
            self.wf(),
            i as int + 5 <= self.spec_height(),
            j as int + 5 <= self.spec_width(),
        ensures
            r == region_dead(self.spec_grid(), self.spec_width(), i as int, j as int),
    {
        let ghost wI = self.spec_width();
        let ghost hI = self.spec_height();
        let total: usize = self.grid.len();
        let mut a: usize = 0;
        while a < GLIDER_AREA
            invariant
                self.wf(),
                wI == self.spec_width(),
                hI == self.spec_height(),
                total == self.spec_grid().len(),
                i as int + 5 <= hI,
                j as int + 5 <= wI,
                a <= 5,
                forall|x: int, y: int|
                    0 <= x < a && 0 <= y < 5 ==> #[trigger] grid_at(
                        self.spec_grid(),
                        wI,
                        i + x,
                        j + y,
                    ) is Dead,
            decreases 5 - a,
        {
            let mut b: usize = 0;
            while b < GLIDER_AREA
                invariant
                    self.wf(),
                    wI == self.spec_width(),
                    hI == self.spec_height(),
                    total == self.spec_grid().len(),
                    i as int + 5 <= hI,
                    j as int + 5 <= wI,
                    a < 5,
                    b <= 5,
                    forall|x: int, y: int|
                        0 <= x < a && 0 <= y < 5 ==> #[trigger] grid_at(
                            self.spec_grid(),
                            wI,
                            i + x,
                            j + y,
                        ) is Dead,
                    forall|y: int|
                        0 <= y < b ==> #[trigger] grid_at(
                            self.spec_grid(),
                            wI,
                            i + a,
                            j + y,
                        ) is Dead,
                decreases 5 - b,
            {
                proof {
                    lemma_rc_index(wI, hI, i + a, j + b);
                    assert(hI * wI == wI * hI) by (nonlinear_arith);
                    assert((i + a) * wI + (j + b) < self.spec_grid().len());
                }
                let idx = (i + a) * self.width + (j + b);
                if self.grid[idx].is_alive() {
                    proof {
                        assert(grid_at(self.spec_grid(), wI, i + a, j + b) is Alive);
                    }
                    return false;
                }
                b = b + 1;
            }
            a = a + 1;
        }
        true
    }

    /// Stamps one of the four glider patterns, chosen at random, with random
    /// per-cell colors, into the center of the region anchored at `(i, j)`.
    fn stamp_glider(&mut self, i: usize, j: usize) -> (p: usize)
        requires
            old(self).wf(),
            i as int + 5 <= old(self).spec_height(),
            j as int + 5 <= old(self).spec_width(),
        ensures
            final(self).wf(),
            Automata::same_config(*old(self), *final(self)),
            final(self).spec_sim_elapsed() == old(self).spec_sim_elapsed(),
            final(self).spec_glider_elapsed() == old(self).spec_glider_elapsed(),
            final(self).spec_last_now() == old(self).spec_last_now(),
            p < 4,
            stamped(
                old(self).spec_grid(),
                final(self).spec_grid(),
                old(self).spec_width(),
                i as int,
                j as int,
                p as int,
            ),
    {
        let w = self.width;
        let h = self.height;
        let ghost wI = w as int;
        let ghost hI = h as int;
        let ghost pre = self.grid@;
        let ghost iI = i as int;
        let ghost jI = j as int;
        let total: usize = self.grid.len();
        let p = rng_below(&mut self.rng, 4);
        let ghost pI = p as int;
        let mut a: usize = 0;
        while a < 3
            invariant
                a <= 3,
                p < 4,
                pI == p as int,
                self.width == w,
                self.height == h,
                wI == w as int,
                hI == h as int,
                0 < wI,
                0 < hI,
                iI == i as int,
                jI == j as int,
                iI + 5 <= hI,
                jI + 5 <= wI,
                pre.len() == wI * hI,
                total == pre.len(),
                self.birth@ == old(self).spec_birth(),
                self.survival@ == old(self).spec_survival(),
                self.sim_interval == old(self).spec_sim_interval(),
                self.glider_interval == old(self).spec_glider_interval(),
                self.sim_elapsed == old(self).spec_sim_elapsed(),
                self.glider_elapsed == old(self).spec_glider_elapsed(),
                self.last_now == old(self).spec_last_now(),
                self.grid@.len() == pre.len(),
                forall|idx: int| 0 <= idx < pre.len() ==> self.grid@[idx].wf(),
                forall|idx: int|
                    0 <= idx < pre.len() && !in_stamp(wI, iI, jI, idx) ==> self.grid@[idx]
                        == pre[idx],
                forall|aa: int, bb: int|
                    0 <= aa < 3 && 0 <= bb < 3 && aa < a ==> #[trigger] stamp_cell_ok(
                        pre,
                        self.grid@,
                        wI,
                        iI,
                        jI,
                        pI,
                        aa,
                        bb,
                    ),
                forall|aa: int, bb: int|
                    0 <= aa < 3 && 0 <= bb < 3 && aa >= a ==> #[trigger] grid_at(
                        self.grid@,
                        wI,
                        iI + 1 + aa,
                        jI + 1 + bb,
                    ) == grid_at(pre, wI, iI + 1 + aa, jI + 1 + bb),
            decreases 3 - a,
        {
            let mut b: usize = 0;
            while b < 3
                invariant
                    a < 3,
                    b <= 3,
                    p < 4,
                    pI == p as int,
                    self.width == w,
                    self.height == h,
                    wI == w as int,
                    hI == h as int,
                    0 < wI,
                    0 < hI,
                    iI == i as int,
                    jI == j as int,
                    iI + 5 <= hI,
                    jI + 5 <= wI,
                    pre.len() == wI * hI,
                    total == pre.len(),
                    self.birth@ == old(self).spec_birth(),
                    self.survival@ == old(self).spec_survival(),
                    self.sim_interval == old(self).spec_sim_interval(),
                    self.glider_interval == old(self).spec_glider_interval(),
                    self.sim_elapsed == old(self).spec_sim_elapsed(),
                    self.glider_elapsed == old(self).spec_glider_elapsed(),
                    self.last_now == old(self).spec_last_now(),
                    self.grid@.len() == pre.len(),
                    forall|idx: int| 0 <= idx < pre.len() ==> self.grid@[idx].wf(),
                    forall|idx: int|
                        0 <= idx < pre.len() && !in_stamp(wI, iI, jI, idx) ==> self.grid@[idx]
                            == pre[idx],
                    forall|aa: int, bb: int|
                        0 <= aa < 3 && 0 <= bb < 3 && aa < a ==> #[trigger] stamp_cell_ok(
                            pre,
                            self.grid@,
                            wI,
                            iI,
                            jI,
                            pI,
                            aa,
                            bb,
                        ),
                    forall|bb: int|
                        0 <= bb < 3 && bb < b ==> #[trigger] stamp_cell_ok(
                            pre,
                            self.grid@,
                            wI,
                            iI,
                            jI,
                            pI,
                            a as int,
                            bb,
                        ),
                    forall|bb: int|
                        0 <= bb < 3 && bb >= b ==> #[trigger] grid_at(
                            self.grid@,
                            wI,
                            iI + 1 + a,
                            jI + 1 + bb,
                        ) == grid_at(pre, wI, iI + 1 + a, jI + 1 + bb),
                    forall|aa: int, bb: int|
                        0 <= aa < 3 && 0 <= bb < 3 && aa > a ==> #[trigger] grid_at(
                            self.grid@,
                            wI,
                            iI + 1 + aa,
                            jI + 1 + bb,
                        ) == grid_at(pre, wI, iI + 1 + aa, jI + 1 + bb),
                decreases 3 - b,
            {
                if glider_on_ex(p, a, b) {
                    let hue_v = rng_below(&mut self.rng, 360);
                    proof {
                        lemma_rc_index(wI, hI, iI + 1 + a, jI + 1 + b);
                        assert(hI * wI == wI * hI) by (nonlinear_arith);
                    }
                    let idx = (i + 1 + a) * w + (j + 1 + b);
                    let ghost oldg = self.grid@;
                    self.grid[idx] = Cell::Alive(Color { hue: hue_v as u16 });
                    proof {
                        let idxI = (iI + 1 + a) * wI + (jI + 1 + b);
                        assert(self.grid@ == oldg.update(idxI, Cell::Alive(
                            Color { hue: hue_v as u16 },
                        )));
                        assert(idxI / wI == iI + 1 + a && idxI % wI == jI + 1 + b);
                        assert(in_stamp(wI, iI, jI, idxI));
                        assert forall|aa: int, bb: int|
                            0 <= aa < 3 && 0 <= bb < 3 && !(aa == a as int && bb == b as int)
                            implies #[trigger] grid_at(
                            self.grid@,
                            wI,
                            iI + 1 + aa,
                            jI + 1 + bb,
                        ) == grid_at(oldg, wI, iI + 1 + aa, jI + 1 + bb) by {
                            lemma_rc_index(wI, hI, iI + 1 + aa, jI + 1 + bb);
                            assert((iI + 1 + aa) * wI + (jI + 1 + bb) != idxI);
                        }
                        assert forall|aa: int, bb: int|
                            0 <= aa < 3 && 0 <= bb < 3 && (aa < a as int || (aa == a as int && bb
                                < b as int)) implies #[trigger] stamp_cell_ok(
                            pre,
                            self.grid@,
                            wI,
                            iI,
                            jI,
                            pI,
                            aa,
                            bb,
                        ) by {
                            assert(stamp_cell_ok(pre, oldg, wI, iI, jI, pI, aa, bb));
                            assert(grid_at(self.grid@, wI, iI + 1 + aa, jI + 1 + bb) == grid_at(
                                oldg,
                                wI,
                                iI + 1 + aa,
                                jI + 1 + bb,
                            ));
                        }
                        assert forall|aa: int, bb: int|
                            0 <= aa < 3 && 0 <= bb < 3 && (aa > a as int || (aa == a as int && bb
                                > b as int)) implies #[trigger] grid_at(
                            self.grid@,
                            wI,
                            iI + 1 + aa,
                            jI + 1 + bb,
                        ) == grid_at(pre, wI, iI + 1 + aa, jI + 1 + bb) by {
                            assert(grid_at(oldg, wI, iI + 1 + aa, jI + 1 + bb) == grid_at(
                                pre,
                                wI,
                                iI + 1 + aa,
                                jI + 1 + bb,
                            ));
                        }
                        assert(stamp_cell_ok(pre, self.grid@, wI, iI, jI, pI, a as int, b as int));
                    }
                } else {
                    proof {
                        assert(grid_at(self.grid@, wI, iI + 1 + a, jI + 1 + b) == grid_at(
                            pre,
                            wI,
                            iI + 1 + a,
                            jI + 1 + b,
                        ));
                        assert(stamp_cell_ok(pre, self.grid@, wI, iI, jI, pI, a as int, b as int));
                    }
                }
                b = b + 1;
            }
            a = a + 1;
        }
        proof {
            assert(stamped(pre, self.grid@, wI, iI, jI, pI));
            assert(pre == old(self).spec_grid());
            assert(wI == old(self).spec_width());
            assert(stamped(
                old(self).spec_grid(),
                self.grid@,
                old(self).spec_width(),
                i as int,
                j as int,
                pI,
            ));
        }
        p
    }

    /// Searches the candidate 5-by-5 regions in a randomized order and
    /// stamps one random glider pattern into the first all-dead region
    /// found; when the grid is too small or no such region exists, the grid
    /// is left unchanged.
    pub fn spawn_glider(&mut self)
        requires
            old(self).wf(),
        ensures
            final(self).wf(),
            Automata::same_config(*old(self), *final(self)),
            final(self).spec_sim_elapsed() == old(self).spec_sim_elapsed(),
            final(self).spec_glider_elapsed() == old(self).spec_glider_elapsed(),
            final(self).spec_last_now() == old(self).spec_last_now(),
            glider_post(
                old(self).spec_grid(),
                final(self).spec_grid(),
                old(self).spec_width(),
                old(self).spec_height(),
            ),
    {
        let w = self.width;
        let h = self.height;
        let ghost wI = w as int;
        let ghost hI = h as int;
        let ghost pre = self.grid@;
        if w < GLIDER_AREA || h < GLIDER_AREA {
            return ;
        }
        let rows_limit = h - GLIDER_AREA + 1;
        let cols_limit = w - GLIDER_AREA + 1;

        let mut positions: Vec<(usize, usize)> = Vec::new();
        let mut i: usize = 0;
        while i < rows_limit
            invariant
                5 <= w,
                5 <= h,
                rows_limit == h - 4,
                cols_limit == w - 4,
                i <= rows_limit,
                forall|t: int|
                    0 <= t < positions@.len() ==> (#[trigger] positions@[t]).0 as int + 5 <= h as int
                        && positions@[t].1 as int + 5 <= w as int,
                forall|ii: int, jj: int|
                    0 <= ii < i && 0 <= jj < cols_limit ==> #[trigger] positions@.contains(
                        ((ii as usize), (jj as usize)),
                    ),
            decreases rows_limit - i,
        {
            let mut j: usize = 0;
            while j < cols_limit
                invariant
                    5 <= w,
                    5 <= h,
                    rows_limit == h - 4,
                    cols_limit == w - 4,
                    i < rows_limit,
                    j <= cols_limit,
                    forall|t: int|
                        0 <= t < positions@.len() ==> (#[trigger] positions@[t]).0 as int + 5 <= h as int
                            && positions@[t].1 as int + 5 <= w as int,
                    forall|ii: int, jj: int|
                        0 <= ii < i && 0 <= jj < cols_limit ==> #[trigger] positions@.contains(
                            ((ii as usize), (jj as usize)),
                        ),
                    forall|jj: int|
                        0 <= jj < j ==> #[trigger] positions@.contains(((i as usize), (jj as usize))),
                decreases cols_limit - j,
            {
                let ghost posold = positions@;
                positions.push((i, j));
                proof {
                    assert(positions@[posold.len() as int] == (i, j));
                    assert forall|ii: int, jj: int|
                        0 <= ii < i && 0 <= jj < cols_limit implies #[trigger] positions@.contains(
                        ((ii as usize), (jj as usize)),
                    ) by {
                        let x = ((ii as usize), (jj as usize));
                        assert(posold.contains(x));
                        let t = choose|t: int| 0 <= t < posold.len() && posold[t] == x;
                        assert(positions@[t] == x);
                    }
                    assert forall|jj: int| 0 <= jj <= j implies #[trigger] positions@.contains(
                        ((i as usize), (jj as usize)),
                    ) by {
                        if jj < j {
                            let x = ((i as usize), (jj as usize));
                            assert(posold.contains(x));
                            let t = choose|t: int| 0 <= t < posold.len() && posold[t] == x;
                            assert(positions@[t] == x);
                        } else {
                            assert(positions@[posold.len() as int] == ((i as usize), (jj as usize)));
                        }
                    }
                }
                j = j + 1;
            }
            i = i + 1;
        }
        proof {
            assert forall|ii: int, jj: int|
                valid_region(wI, hI, ii, jj) && #[trigger] region_dead(pre, wI, ii, jj) implies
                positions@.contains(((ii as usize), (jj as usize))) by {
                assert(0 <= ii < rows_limit as int && 0 <= jj < cols_limit as int);
            }
        }

        while positions.len() > 0
            invariant
                5 <= w,
                5 <= h,
                self.width == w,
                self.height == h,
                wI == w as int,
                hI == h as int,
                self.wf(),
                self.grid@ == pre,
                old(self).spec_grid() == pre,
                old(self).spec_width() == wI,
                old(self).spec_height() == hI,
                self.birth@ == old(self).spec_birth(),
                self.survival@ == old(self).spec_survival(),
                self.sim_interval == old(self).spec_sim_interval(),
                self.glider_interval == old(self).spec_glider_interval(),
                self.sim_elapsed == old(self).spec_sim_elapsed(),
                self.glider_elapsed == old(self).spec_glider_elapsed(),
                self.last_now == old(self).spec_last_now(),
                forall|t: int|
                    0 <= t < positions@.len() ==> (#[trigger] positions@[t]).0 as int + 5 <= hI
                        && positions@[t].1 as int + 5 <= wI,
                forall|ii: int, jj: int|
                    valid_region(wI, hI, ii, jj) && #[trigger] region_dead(pre, wI, ii, jj)
                        ==> positions@.contains(((ii as usize), (jj as usize))),
            decreases positions@.len(),
        {
            let t = rng_below(&mut self.rng, positions.len());
            let ghost posold = positions@;
            let (pi, pj) = positions.swap_remove(t);
            if self.region_is_dead(pi, pj) {
                proof {
                    assert(valid_region(wI, hI, pi as int, pj as int));
                    assert(has_dead_region(pre, wI, hI));
                }
                let p = self.stamp_glider(pi, pj);
                proof {
                    assert(valid_region(wI, hI, pi as int, pj as int) && region_dead(
                        pre,
                        wI,
                        pi as int,
                        pj as int,
                    ) && 0 <= (p as int) < 4 && stamped(
                        pre,
                        self.grid@,
                        wI,
                        pi as int,
                        pj as int,
                        p as int,
                    ));
                }
                return ;
            }
            proof {
                assert(!region_dead(pre, wI, pi as int, pj as int));
                assert forall|ii: int, jj: int|
                    valid_region(wI, hI, ii, jj) && #[trigger] region_dead(pre, wI, ii, jj) implies
                    positions@.contains(((ii as usize), (jj as usize))) by {
                    let x = ((ii as usize), (jj as usize));
                    assert(posold.contains(x));
                    let u = choose|u: int| 0 <= u < posold.len() && posold[u] == x;
                    assert(x != (pi, pj));
                    if u == t as int {
                        assert(false);
                    } else if u == posold.len() - 1 {
                        if t as int == posold.len() - 1 {
                            assert(false);
                        } else {
                            assert(positions@[t as int] == x);
                        }
                    } else {
                        assert(positions@[u] == x);
                    }
                }
            }
        }
        proof {
            assert(!has_dead_region(pre, wI, hI)) by {
                if has_dead_region(pre, wI, hI) {
                    let (ii, jj) = choose|ii: int, jj: int|
                        valid_region(wI, hI, ii, jj) && #[trigger] region_dead(pre, wI, ii, jj);
                    assert(positions@.contains(((ii as usize), (jj as usize))));
                }
            }
        }
    }
}



/// What one `advance` by `elapsed` milliseconds does: each accumulator
/// grows by the elapsed time and fires when it reaches its interval. A
/// simulation firing steps the grid one generation; a glider firing then
/// injects a glider per `glider_post`; a fired accumulator resets to zero.
pub open spec fn advanced(pre: Automata, post: Automata, elapsed: u64) -> bool {
    let fire_sim = pre.spec_sim_elapsed() + elapsed >= pre.spec_sim_interval();
    let fire_glider = pre.spec_glider_elapsed() + elapsed >= pre.spec_glider_interval();
    let mid = if fire_sim {
        step_spec(
            pre.spec_grid(),
            pre.spec_width(),
            pre.spec_height(),
            pre.spec_survival(),
            pre.spec_birth(),
        )
    } else {
        pre.spec_grid()
    };
    &&& Automata::same_config(pre, post)
    &&& post.spec_sim_elapsed() == if fire_sim {
        0int
    } else {
        pre.spec_sim_elapsed() + elapsed
    }
    &&& post.spec_glider_elapsed() == if fire_glider {
        0int
    } else {
        pre.spec_glider_elapsed() + elapsed
    }
    &&& if fire_glider {
        glider_post(mid, post.spec_grid(), pre.spec_width(), pre.spec_height())
    } else {
        post.spec_grid() == mid
    }
}

/// A copy of a rule set.
fn clone_rule(v: &Vec<usize>) -> (r: Vec<usize>)
    ensures
        r@ == v@,
{
    let mut r: Vec<usize> = Vec::new();
    let mut i: usize = 0;
    while i < v.len()
        invariant
            i <= v@.len(),
            r@ == v@.take(i as int),
        decreases v@.len() - i,
    {
        r.push(v[i]);
        proof {
            assert(v@.take(i + 1) =~= v@.take(i as int).push(v@[i as int]));
        }
        i = i + 1;
    }
    proof {
        assert(v@.take(v@.len() as int) =~= v@);
    }
    r
}

impl Automata {
    /// Builds an automaton with the given dimensions, rule sets and tick
    /// intervals, its grid filled at random — each cell independently dead
    /// or alive with equal probability, live cells hued at random — from a
    /// generator seeded with `seed`. Zero dimensions and zero intervals are
    /// rejected.
    pub fn new_configured(
        width: usize,
        height: usize,
        birth: Vec<usize>,
        survival: Vec<usize>,
        sim_interval_ms: u64,
        glider_interval_ms: u64,
        seed: u64,
    ) -> (r: Result<Automata, AutomataError>)
        requires
            (width as int) * (height as int) <= usize::MAX,
        ensures
            r is Ok <==> (width > 0 && height > 0 && sim_interval_ms > 0 && glider_interval_ms
                > 0),
            r matches Ok(a) ==> a.wf() && a.spec_width() == width && a.spec_height() == height
                && a.spec_birth() == birth@ && a.spec_survival() == survival@
                && a.spec_sim_interval() == sim_interval_ms && a.spec_glider_interval()
                == glider_interval_ms && a.spec_sim_elapsed() == 0 && a.spec_glider_elapsed() == 0
                && a.spec_last_now() == seed,
            (width == 0 || height == 0) ==> r == Err::<Automata, AutomataError>(
                AutomataError::ZeroDimension,
            ),
            (width > 0 && height > 0 && (sim_interval_ms == 0 || glider_interval_ms == 0)) ==> r
                == Err::<Automata, AutomataError>(AutomataError::ZeroInterval),
    {
        if width == 0 || height == 0 {
            return Err(AutomataError::ZeroDimension);
        }
        if sim_interval_ms == 0 || glider_interval_ms == 0 {
            return Err(AutomataError::ZeroInterval);
        }
        let mut rng = rng_from_seed(seed);
        let total = width * height;
        let mut grid: Vec<Cell> = Vec::new();
        while grid.len() < total
            invariant
                grid@.len() <= total,
                forall|i: int| 0 <= i < grid@.len() ==> grid@[i].wf(),
            decreases total - grid@.len(),
        {
            if rng_bool(&mut rng) {
                let hue_v = rng_below(&mut rng, 360);
                grid.push(Cell::Alive(Color { hue: hue_v as u16 }));
            } else {
                grid.push(Cell::Dead);
            }
        }
        Ok(
            Automata {
                grid,
                width,
                height,
                birth,
                survival,
                sim_interval: sim_interval_ms,
                glider_interval: glider_interval_ms,
                sim_elapsed: 0,
                glider_elapsed: 0,
                last_now: seed,
                rng,
            },
        )
    }

    /// Builds an automaton as `new_configured` does, at the default tick
    /// intervals. Zero dimensions are rejected.
    pub fn new_seeded(
        width: usize,
        height: usize,
        birth: Vec<usize>,
        survival: Vec<usize>,
        seed: u64,
    ) -> (r: Result<Automata, AutomataError>)
        requires
            (width as int) * (height as int) <= usize::MAX,
        ensures
            r is Ok <==> (width > 0 && height > 0),
            r matches Ok(a) ==> a.wf() && a.spec_width() == width && a.spec_height() == height
                && a.spec_birth() == birth@ && a.spec_survival() == survival@
                && a.spec_sim_interval() == TIME_STEP_MS && a.spec_glider_interval()
                == GLIDER_TIME_STEP_MS && a.spec_sim_elapsed() == 0 && a.spec_glider_elapsed()
                == 0 && a.spec_last_now() == seed,
            r matches Err(e) ==> e == AutomataError::ZeroDimension,
    {
        Automata::new_configured(
            width,
            height,
            birth,
            survival,
            TIME_STEP_MS,
            GLIDER_TIME_STEP_MS,
            seed,
        )
    }

    /// Builds an automaton over the given cells — row-major, exactly
    /// `width * height` of them — with fresh accumulators and a generator
    /// seeded with `seed`.
    pub fn with_grid(
        width: usize,
        height: usize,
        cells: Vec<Cell>,
        birth: Vec<usize>,
        survival: Vec<usize>,
        seed: u64,
    ) -> (r: Result<Automata, AutomataError>)
        requires
            (width as int) * (height as int) <= usize::MAX,
            forall|i: int| 0 <= i < cells@.len() ==> cells@[i].wf(),
        ensures
            r is Ok <==> (width > 0 && height > 0 && cells@.len() == (width as int) * (
            height as int)),
            r matches Ok(a) ==> a.wf() && a.spec_width() == width && a.spec_height() == height
                && a.spec_grid() == cells@ && a.spec_birth() == birth@ && a.spec_survival()
                == survival@ && a.spec_sim_interval() == TIME_STEP_MS && a.spec_glider_interval()
                == GLIDER_TIME_STEP_MS && a.spec_sim_elapsed() == 0 && a.spec_glider_elapsed()
                == 0 && a.spec_last_now() == seed,
            (width == 0 || height == 0) ==> r == Err::<Automata, AutomataError>(
                AutomataError::ZeroDimension,
            ),
            (width > 0 && height > 0 && cells@.len() != (width as int) * (height as int)) ==> r
                == Err::<Automata, AutomataError>(AutomataError::SizeMismatch),
    {
        if width == 0 || height == 0 {
            return Err(AutomataError::ZeroDimension);
        }
        let total = width * height;
        if cells.len() != total {
            return Err(AutomataError::SizeMismatch);
        }
        let rng = rng_from_seed(seed);
        Ok(
            Automata {
                grid: cells,
                width,
                height,
                birth,
                survival,
                sim_interval: TIME_STEP_MS,
                glider_interval: GLIDER_TIME_STEP_MS,
                sim_elapsed: 0,
                glider_elapsed: 0,
                last_now: seed,
                rng,
            },
        )
    }

    /// Builds an automaton as `new_seeded` does, seeding the generator — and
    /// so the random grid — from the wall clock, so that repeated
    /// constructions differ.
    pub fn new(width: usize, height: usize, birth: Vec<usize>, survival: Vec<usize>) -> (r:
        Result<Automata, AutomataError>)
        requires
            (width as int) * (height as int) <= usize::MAX,
        ensures
            r is Ok <==> (width > 0 && height > 0),
            r matches Ok(a) ==> a.wf() && a.spec_width() == width && a.spec_height() == height
                && a.spec_birth() == birth@ && a.spec_survival() == survival@
                && a.spec_sim_interval() == TIME_STEP_MS && a.spec_glider_interval()
                == GLIDER_TIME_STEP_MS && a.spec_sim_elapsed() == 0 && a.spec_glider_elapsed()
                == 0,
            r matches Err(e) ==> e == AutomataError::ZeroDimension,
    {
        let seed = now_millis();
        Automata::new_seeded(width, height, birth, survival, seed)
    }

    /// Advances both accumulators by the given elapsed milliseconds and
    /// performs whatever periodic work came due: first a simulation step,
    /// then a glider injection. With too little elapsed time it only
    /// accumulates.
    pub fn advance(&mut self, elapsed_ms: u64)
        requires
            old(self).wf(),
        ensures
            final(self).wf(),
            advanced(*old(self), *final(self), elapsed_ms),
            final(self).spec_last_now() == old(self).spec_last_now(),
    {
        let fire_sim = elapsed_ms >= self.sim_interval - self.sim_elapsed;
        if fire_sim {
            self.sim_elapsed = 0;
            self.step();
        } else {
            self.sim_elapsed = self.sim_elapsed + elapsed_ms;
        }
        let fire_glider = elapsed_ms >= self.glider_interval - self.glider_elapsed;
        if fire_glider {
            self.glider_elapsed = 0;
            self.spawn_glider();
        } else {
            self.glider_elapsed = self.glider_elapsed + elapsed_ms;
        }
    }

    /// Reads the wall clock, advances the accumulators by the real time
    /// elapsed since the last call, and performs whatever periodic work came
    /// due; a no-op (but for the accumulators) when neither interval has
    /// elapsed. What was done is `advanced` for the elapsed time the clock
    /// showed.
    pub fn update(&mut self)
        requires
            old(self).wf(),
        ensures
            final(self).wf(),
            exists|elapsed: u64| #[trigger] advanced(*old(self), *final(self), elapsed),
    {
        let now = now_millis();
        let elapsed = if now >= self.last_now {
            now - self.last_now
        } else {
            0
        };
        self.last_now = now;
        let ghost mid = *self;
        self.advance(elapsed);
        proof {
            assert(advanced(mid, *self, elapsed));
            assert(advanced(*old(self), *self, elapsed));
        }
    }

    /// Discards the grid and both accumulators and reinitializes at the new
    /// dimensions with a fresh random grid — reseeded from the wall clock —
    /// preserving only the rule sets and the tick intervals. Zero dimensions
    /// are rejected and leave the automaton unchanged.
    pub fn resize(&mut self, new_width: usize, new_height: usize) -> (r: Result<
        (),
        AutomataError,
    >)
        requires
            old(self).wf(),
            (new_width as int) * (new_height as int) <= usize::MAX,
        ensures
            r is Ok <==> (new_width > 0 && new_height > 0),
            r is Ok ==> final(self).wf() && final(self).spec_width() == new_width
                && final(self).spec_height() == new_height
                && final(self).spec_birth() == old(self).spec_birth()
                && final(self).spec_survival() == old(self).spec_survival()
                && final(self).spec_sim_interval() == old(self).spec_sim_interval()
                && final(self).spec_glider_interval() == old(self).spec_glider_interval()
                && final(self).spec_sim_elapsed() == 0
                && final(self).spec_glider_elapsed() == 0,
            r is Err ==> *final(self) == *old(self) && r == Err::<(), AutomataError>(
                AutomataError::ZeroDimension,
            ),
    {
        let birth = clone_rule(&self.birth);
        let survival = clone_rule(&self.survival);
        let seed = now_millis();
        match Automata::new_configured(
            new_width,
            new_height,
            birth,
            survival,
            self.sim_interval,
            self.glider_interval,
            seed,
        ) {
            Ok(a) => {
                *self = a;
                Ok(())
            },
            Err(e) => Err(e),
        }
    }
}

} // verus!
