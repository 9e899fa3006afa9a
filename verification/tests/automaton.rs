use hue_life::automata::{Automata, AutomataError};
use hue_life::cell::Cell;
use hue_life::hue::Color;

fn alive(hue: u16) -> Cell {
    Cell::Alive(Color { hue })
}

fn grid_of(cells: Vec<Cell>, width: usize, height: usize, birth: Vec<usize>, survival: Vec<usize>) -> Automata {
    Automata::with_grid(width, height, cells, birth, survival, 7).unwrap()
}

#[test]
fn zero_dimensions_are_rejected() {
    assert_eq!(
        Automata::new(0, 5, vec![3], vec![2, 3]).unwrap_err(),
        AutomataError::ZeroDimension
    );
    assert_eq!(
        Automata::new(5, 0, vec![3], vec![2, 3]).unwrap_err(),
        AutomataError::ZeroDimension
    );
}

#[test]
fn wrong_cell_count_is_rejected() {
    let cells = vec![Cell::Dead; 5];
    assert_eq!(
        Automata::with_grid(2, 3, cells, vec![3], vec![2, 3], 0).unwrap_err(),
        AutomataError::SizeMismatch
    );
}

#[test]
fn random_grids_hold_valid_hues() {
    let automata = Automata::new_seeded(16, 16, vec![3], vec![2, 3], 99).unwrap();
    let colors = automata.colors();
    assert_eq!(colors.len(), 256);
    for color in colors.iter().flatten() {
        assert!(color.hue < 360);
    }
}

#[test]
fn equal_seeds_give_equal_grids() {
    let a = Automata::new_seeded(12, 9, vec![3], vec![2, 3], 424242).unwrap();
    let b = Automata::new_seeded(12, 9, vec![3], vec![2, 3], 424242).unwrap();
    assert_eq!(a.colors(), b.colors());
}

#[test]
fn corner_cell_reads_its_mirrored_neighbors() {
    // On a 1-by-1 grid every one of the 8 neighbor reads reflects back to
    // the single cell itself, so a live cell sees 8 live neighbors.
    let mut stays = grid_of(vec![alive(5)], 1, 1, vec![3], vec![8]);
    stays.advance(100);
    assert_eq!(stays.colors(), vec![Some(Color { hue: 5 })]);

    let mut dies = grid_of(vec![alive(5)], 1, 1, vec![3], vec![2, 3]);
    dies.advance(100);
    assert_eq!(dies.colors(), vec![None]);
}

#[test]
fn one_step_matches_the_hand_computed_generation() {
    // 3-by-3 grid, single live corner, Conway rules. With mirror padding the
    // corner sees three reflected copies of itself and survives; every other
    // cell counts at most two live neighbors and stays dead.
    let mut cells = vec![Cell::Dead; 9];
    cells[0] = alive(100);
    let mut automata = grid_of(cells, 3, 3, vec![3], vec![2, 3]);
    automata.advance(100);
    let colors = automata.colors();
    assert_eq!(colors[0], Some(Color { hue: 100 }));
    for cell in colors.iter().skip(1) {
        assert_eq!(*cell, None);
    }
}

#[test]
fn three_corners_give_birth_to_a_mixed_center() {
    // A 3-by-3 grid with three live corners hued 0, 120 and 240 degrees:
    // the dead center counts exactly 3 live neighbors and is born with the
    // circular mean of the three hues, which by symmetry is 0.
    let mut cells = vec![Cell::Dead; 9];
    cells[0] = alive(0);
    cells[2] = alive(120);
    cells[6] = alive(240);
    let mut automata = grid_of(cells, 3, 3, vec![3], vec![2, 3]);
    automata.advance(100);
    assert_eq!(automata.colors()[4], Some(Color { hue: 0 }));
}

#[test]
fn glider_injection_on_a_full_grid_changes_nothing() {
    let cells = vec![alive(33); 25];
    let mut automata = grid_of(cells, 5, 5, vec![3], vec![2, 3]);
    let before = automata.colors();
    automata.spawn_glider();
    assert_eq!(automata.colors(), before);
}

#[test]
fn glider_injection_on_a_small_grid_changes_nothing() {
    let cells = vec![Cell::Dead; 12];
    let mut automata = grid_of(cells, 4, 3, vec![3], vec![2, 3]);
    let before = automata.colors();
    automata.spawn_glider();
    assert_eq!(automata.colors(), before);
}

#[test]
fn glider_injection_stamps_five_cells_in_the_center() {
    let cells = vec![Cell::Dead; 25];
    let mut automata = grid_of(cells, 5, 5, vec![3], vec![2, 3]);
    automata.spawn_glider();
    let colors = automata.colors();
    let mut live = 0;
    for (idx, color) in colors.iter().enumerate() {
        let (row, col) = (idx / 5, idx % 5);
        match color {
            Some(c) => {
                live += 1;
                assert!(c.hue < 360);
                assert!((1..4).contains(&row) && (1..4).contains(&col));
            }
            None => {}
        }
    }
    // Every glider orientation lights exactly 5 cells.
    assert_eq!(live, 5);
}

#[test]
fn too_little_elapsed_time_changes_nothing() {
    let mut cells = vec![Cell::Dead; 9];
    cells[0] = alive(100);
    let mut automata = grid_of(cells, 3, 3, vec![3], vec![2, 3]);
    let before = automata.colors();
    automata.advance(99);
    assert_eq!(automata.colors(), before);
    // The shortfall accumulates: one more millisecond fires the step.
    automata.advance(1);
    assert_eq!(automata.colors(), before);
    for _ in 0..10 {
        automata.advance(99);
    }
    assert_eq!(automata.colors().len(), 9);
}

#[test]
fn resize_reinitializes_but_keeps_the_rules() {
    let cells = vec![Cell::Dead; 9];
    let mut automata = grid_of(cells, 3, 3, vec![3], vec![2, 3]);
    let birth_before = automata.birth().clone();
    let survival_before = automata.survival().clone();
    automata.resize(4, 2).unwrap();
    assert_eq!(automata.width(), 4);
    assert_eq!(automata.height(), 2);
    assert_eq!(automata.colors().len(), 8);
    assert_eq!(automata.birth(), &birth_before);
    assert_eq!(automata.survival(), &survival_before);
}

#[test]
fn resize_to_zero_is_rejected() {
    let cells = vec![Cell::Dead; 9];
    let mut automata = grid_of(cells, 3, 3, vec![3], vec![2, 3]);
    assert_eq!(automata.resize(0, 2).unwrap_err(), AutomataError::ZeroDimension);
    assert_eq!(automata.width(), 3);
    assert_eq!(automata.height(), 3);
}

#[test]
fn update_runs_against_the_real_clock() {
    let mut automata = Automata::new(10, 10, vec![3], vec![2, 3]).unwrap();
    automata.update();
    automata.update();
    assert_eq!(automata.colors().len(), 100);
}

#[test]
fn zero_intervals_are_rejected() {
    assert_eq!(
        Automata::new_configured(3, 3, vec![3], vec![2, 3], 0, 500, 1).unwrap_err(),
        AutomataError::ZeroInterval
    );
    assert_eq!(
        Automata::new_configured(3, 3, vec![3], vec![2, 3], 100, 0, 1).unwrap_err(),
        AutomataError::ZeroInterval
    );
}

#[test]
fn configured_intervals_drive_the_timers() {
    // Empty rule sets: a step kills every cell and births none, so firing
    // is observable. With a 1000 ms step interval, 999 ms change nothing;
    // the next millisecond fires the step.
    let mut automata = Automata::new_configured(4, 4, vec![], vec![], 1000, 10_000, 5).unwrap();
    let before = automata.colors();
    automata.advance(999);
    assert_eq!(automata.colors(), before);
    automata.advance(1);
    assert!(automata.colors().iter().all(|c| c.is_none()));
}

#[test]
fn resize_keeps_the_configured_intervals() {
    let mut automata = Automata::new_configured(3, 3, vec![3], vec![2, 3], 40, 70, 11).unwrap();
    automata.resize(2, 5).unwrap();
    assert_eq!(automata.sim_interval(), 40);
    assert_eq!(automata.glider_interval(), 70);
    assert_eq!(automata.colors().len(), 10);
}
