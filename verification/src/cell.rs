//! The cell model and the transition rule.
//!
//! A cell is either dead or alive with a color. The transition rule reads a
//! row-major 3-by-3 window of the previous generation (center at position 4)
//! and yields the center's next state: a live center survives, color
//! unchanged, exactly when its live-neighbor count is in the survival set; a
//! dead center is born exactly when its live-neighbor count is positive and
//! in the birth set, and then carries the circular mix of the neighbors'
//! hues. A birth set containing 0 never resurrects a neighborless cell:
//! mixing zero colors is undefined, so such a cell stays dead.

use crate::hue::{mix_colors, mixed_hue, Color};
use vstd::prelude::*;

verus! {

/// One cell of the grid: dead, or alive with a color.
#[derive(Clone, Copy, Debug, PartialEq, Eq, Structural)]
pub enum Cell {
    Alive(Color),
    Dead,
}

impl Cell {
    /// Whether the cell is alive.
    pub open spec fn spec_is_alive(&self) -> bool {
        self is Alive
    }

    /// A cell's color, when it has one, is a well-formed hue.
    pub open spec fn wf(&self) -> bool {
        match self {
            Cell::Alive(c) => c.wf(),
            Cell::Dead => true,
        }
    }

    /// Returns `true` if the cell is [`Alive`].
    ///
    /// [`Alive`]: Cell::Alive
    #[verifier::when_used_as_spec(spec_is_alive)]
    pub fn is_alive(&self) -> (r: bool)
        ensures
            r == self.spec_is_alive(),
    {
        matches!(self, Cell::Alive(..))
    }
}

/// The number of live cells in the collection.
pub open spec fn alive_count(cells: Seq<Cell>) -> int
    decreases cells.len(),
{
    if cells.len() == 0 {
        0
    } else {
        alive_count(cells.drop_last()) + if cells.last() is Alive {
            1int
        } else {
            0int
        }
    }
}

/// The hues of the live cells in the collection, in order.
pub open spec fn alive_hues(cells: Seq<Cell>) -> Seq<u16>
    decreases cells.len(),
{
    if cells.len() == 0 {
        Seq::empty()
    } else {
        alive_hues(cells.drop_last()) + match cells.last() {
            Cell::Alive(c) => seq![c.hue],
            Cell::Dead => Seq::empty(),
        }
    }
}

/// The 8 neighbors of a 3-by-3 window: every position but the center.
pub open spec fn neighbor_cells(window: Seq<Cell>) -> Seq<Cell> {
    window.take(4) + window.skip(5)
}

/// The next state of the window's center cell.
pub open spec fn transition_spec(window: Seq<Cell>, survival: Seq<usize>, birth: Seq<usize>) -> Cell
    recommends
        window.len() == 9,
{
    let neighbors = neighbor_cells(window);
    let n = alive_count(neighbors);
    match window[4] {
        Cell::Alive(_) => if survival.contains(n as usize) {
            window[4]
        } else {
            Cell::Dead
        },
        Cell::Dead => if n > 0 && birth.contains(n as usize) {
            Cell::Alive(Color { hue: mixed_hue(alive_hues(neighbors)) as u16 })
        } else {
            Cell::Dead
        },
    }
}

/// A live center survives unchanged exactly when its live-neighbor count is
/// in the survival set; otherwise it dies.
pub proof fn lemma_survival_invariant(window: Seq<Cell>, survival: Seq<usize>, birth: Seq<usize>)
    requires
        window.len() == 9,
        window[4] is Alive,
    ensures
        survival.contains(alive_count(neighbor_cells(window)) as usize) ==> transition_spec(
            window,
            survival,
            birth,
        ) == window[4],
        !survival.contains(alive_count(neighbor_cells(window)) as usize) ==> transition_spec(
            window,
            survival,
            birth,
        ) == Cell::Dead,
{
}

/// A dead center is born exactly when its live-neighbor count is positive
/// and in the birth set, and then carries the circular mix of its live
/// neighbors' hues; otherwise it stays dead.
pub proof fn lemma_birth_invariant(window: Seq<Cell>, survival: Seq<usize>, birth: Seq<usize>)
    requires
        window.len() == 9,
        window[4] is Dead,
    ensures
        (alive_count(neighbor_cells(window)) > 0 && birth.contains(
            alive_count(neighbor_cells(window)) as usize,
        )) ==> transition_spec(window, survival, birth) == Cell::Alive(
            Color { hue: mixed_hue(alive_hues(neighbor_cells(window))) as u16 },
        ),
        !(alive_count(neighbor_cells(window)) > 0 && birth.contains(
            alive_count(neighbor_cells(window)) as usize,
        )) ==> transition_spec(window, survival, birth) == Cell::Dead,
{
}

/// Extending a prefix by one cell extends its live count and live hues.
proof fn lemma_alive_prefix(cells: Seq<Cell>, i: int)
    requires
        0 <= i < cells.len(),
    ensures
        alive_count(cells.take(i + 1)) == alive_count(cells.take(i)) + if cells[i] is Alive {
            1int
        } else {
            0int
        },
        alive_hues(cells.take(i + 1)) == alive_hues(cells.take(i)) + match cells[i] {
            Cell::Alive(c) => seq![c.hue],
            Cell::Dead => Seq::<u16>::empty(),
        },
{
    assert(cells.take(i + 1).drop_last() =~= cells.take(i));
    assert(cells.take(i + 1).last() == cells[i]);
    assert(alive_hues(cells.take(i + 1)) =~= alive_hues(cells.take(i)) + match cells[i] {
        Cell::Alive(c) => seq![c.hue],
        Cell::Dead => Seq::<u16>::empty(),
    });
}

/// The live count of a collection is at most its length, and its live hues
/// are no more numerous than its live count.
proof fn lemma_alive_bounds(cells: Seq<Cell>)
    ensures
        0 <= alive_count(cells) <= cells.len(),
        alive_hues(cells).len() == alive_count(cells),
    decreases cells.len(),
{
    if cells.len() > 0 {
        lemma_alive_bounds(cells.drop_last());
    }
}

/// Whether the rule set holds the given neighbor count.
fn rule_contains(rule: &[usize], n: usize) -> (r: bool)
    ensures
        r == rule@.contains(n),
{
    let mut i: usize = 0;
    while i < rule.len()
        invariant
            0 <= i <= rule@.len(),
            forall|j: int| 0 <= j < i ==> rule@[j] != n,
        decreases rule@.len() - i,
    {
        if rule[i] == n {
            return true;
        }
        i = i + 1;
    }
    false
}

/// The cells of a window of borrowed cells.
pub open spec fn deref_cells(window: Seq<&Cell>) -> Seq<Cell> {
    window.map_values(|c: &Cell| *c)
}

/// Applies the transition rule to the center of a row-major 3-by-3 window.
pub fn with_neighbors(window: Vec<&Cell>, survival: &[usize], birth: &[usize]) -> (c: Cell)
    requires
        window@.len() == 9,
        forall|i: int| 0 <= i < 9 ==> window@[i].wf(),
    ensures
        c == transition_spec(deref_cells(window@), survival@, birth@),
        c.wf(),
{
    let ghost cells = deref_cells(window@);
    let mut neighbors: Vec<Cell> = Vec::new();
    neighbors.push(*window[0]);
    neighbors.push(*window[1]);
    neighbors.push(*window[2]);
    neighbors.push(*window[3]);
    neighbors.push(*window[5]);
    neighbors.push(*window[6]);
    neighbors.push(*window[7]);
    neighbors.push(*window[8]);
    proof {
        assert(neighbors@ =~= neighbor_cells(cells));
    }

    let mut count: usize = 0;
    let mut hues: Vec<u16> = Vec::new();
    let mut i: usize = 0;
    while i < 8
        invariant
            0 <= i <= 8,
            neighbors@.len() == 8,
            neighbors@ == neighbor_cells(cells),
            forall|j: int| 0 <= j < 8 ==> neighbors@[j].wf(),
            count == alive_count(neighbors@.take(i as int)),
            hues@ == alive_hues(neighbors@.take(i as int)),
            count <= i,
            hues@.len() <= i,
            forall|j: int| 0 <= j < hues@.len() ==> hues@[j] < 360,
        decreases 8 - i,
    {
        proof {
            lemma_alive_prefix(neighbors@, i as int);
        }
        match neighbors[i] {
            Cell::Alive(color) => {
                count = count + 1;
                hues.push(color.hue);
            },
            Cell::Dead => {
                proof {
                    assert(hues@ + Seq::<u16>::empty() =~= hues@);
                }
            },
        }
        i = i + 1;
    }
    proof {
        assert(neighbors@.take(8) =~= neighbors@);
    }

    match window[4] {
        Cell::Alive(_) => {
            if rule_contains(survival, count) {
                *window[4]
            } else {
                Cell::Dead
            }
        },
        Cell::Dead => {
            if count > 0 && rule_contains(birth, count) {
                proof {
                    lemma_alive_bounds(neighbors@);
                }
                Cell::Alive(mix_colors(&hues))
            } else {
                Cell::Dead
            }
        },
    }
}

} // verus!
