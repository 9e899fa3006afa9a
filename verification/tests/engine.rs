use hue_life::cell::{with_neighbors, Cell};
use hue_life::hue::Color;
use hue_life::text::contains_alpha_numeric_or_symbols;

fn alive(hue: u16) -> Cell {
    Cell::Alive(Color { hue })
}

fn window(center: Cell, neighbors: [Cell; 8]) -> Vec<Cell> {
    let mut cells = Vec::new();
    for n in neighbors.iter().take(4) {
        cells.push(*n);
    }
    cells.push(center);
    for n in neighbors.iter().skip(4) {
        cells.push(*n);
    }
    cells
}

fn transition(center: Cell, neighbors: [Cell; 8], survival: &[usize], birth: &[usize]) -> Cell {
    let cells = window(center, neighbors);
    let refs: Vec<&Cell> = cells.iter().collect();
    with_neighbors(refs, survival, birth)
}

fn result_hue(cell: Cell) -> u16 {
    match cell {
        Cell::Alive(color) => color.hue,
        Cell::Dead => panic!("expected a live cell"),
    }
}

#[test]
fn transition_is_deterministic() {
    let neighbors = [
        alive(0),
        Cell::Dead,
        alive(120),
        Cell::Dead,
        Cell::Dead,
        Cell::Dead,
        alive(240),
        Cell::Dead,
    ];
    let first = transition(Cell::Dead, neighbors, &[2, 3], &[3]);
    let second = transition(Cell::Dead, neighbors, &[2, 3], &[3]);
    assert_eq!(first, second);
    assert!(first.is_alive());
}

#[test]
fn survival_keeps_the_color() {
    let neighbors = [
        alive(10),
        alive(20),
        Cell::Dead,
        Cell::Dead,
        Cell::Dead,
        Cell::Dead,
        Cell::Dead,
        Cell::Dead,
    ];
    let out = transition(alive(42), neighbors, &[2, 3], &[3]);
    assert_eq!(out, alive(42));
}

#[test]
fn death_outside_the_survival_set() {
    let neighbors = [
        alive(10),
        Cell::Dead,
        Cell::Dead,
        Cell::Dead,
        Cell::Dead,
        Cell::Dead,
        Cell::Dead,
        Cell::Dead,
    ];
    let out = transition(alive(42), neighbors, &[2, 3], &[3]);
    assert_eq!(out, Cell::Dead);
}

#[test]
fn birth_inside_the_birth_set() {
    let neighbors = [
        alive(0),
        alive(120),
        alive(240),
        Cell::Dead,
        Cell::Dead,
        Cell::Dead,
        Cell::Dead,
        Cell::Dead,
    ];
    let out = transition(Cell::Dead, neighbors, &[2, 3], &[3]);
    // Three hues evenly spaced around the wheel mix to their circular mean.
    assert_eq!(result_hue(out), 0);
}

#[test]
fn no_birth_outside_the_birth_set() {
    let neighbors = [
        alive(0),
        alive(120),
        Cell::Dead,
        Cell::Dead,
        Cell::Dead,
        Cell::Dead,
        Cell::Dead,
        Cell::Dead,
    ];
    let out = transition(Cell::Dead, neighbors, &[2, 3], &[3]);
    assert_eq!(out, Cell::Dead);
}

#[test]
fn birth_count_zero_stays_dead() {
    // A birth set holding 0 must not resurrect a neighborless cell: mixing
    // zero colors is undefined, so the cell stays dead.
    let neighbors = [Cell::Dead; 8];
    let out = transition(Cell::Dead, neighbors, &[2, 3], &[0, 3]);
    assert_eq!(out, Cell::Dead);
}

#[test]
fn mixing_wraps_around_the_hue_wheel() {
    // 10 and 350 degrees straddle the wrap: their mix is 0, not 180.
    let neighbors = [
        alive(10),
        alive(350),
        Cell::Dead,
        Cell::Dead,
        Cell::Dead,
        Cell::Dead,
        Cell::Dead,
        Cell::Dead,
    ];
    let out = transition(Cell::Dead, neighbors, &[2, 3], &[2]);
    assert_eq!(result_hue(out), 0);
}

#[test]
fn mixing_a_single_hue_returns_it_unchanged() {
    for hue in [0u16, 45, 77, 90, 123, 180, 200, 270, 300, 359] {
        let neighbors = [
            alive(hue),
            Cell::Dead,
            Cell::Dead,
            Cell::Dead,
            Cell::Dead,
            Cell::Dead,
            Cell::Dead,
            Cell::Dead,
        ];
        let out = transition(Cell::Dead, neighbors, &[2, 3], &[1]);
        assert_eq!(result_hue(out), hue);
    }
}

#[test]
fn mixing_a_symmetric_set_yields_some_valid_hue() {
    // Four hues that cancel out exactly: no defined direction, but the mix
    // must still be a well-formed hue rather than an error.
    let neighbors = [
        alive(0),
        alive(90),
        alive(180),
        alive(270),
        Cell::Dead,
        Cell::Dead,
        Cell::Dead,
        Cell::Dead,
    ];
    let out = transition(Cell::Dead, neighbors, &[2, 3], &[4]);
    assert!(result_hue(out) < 360);
}

#[test]
fn is_alive_tells_the_variants_apart() {
    assert!(alive(1).is_alive());
    assert!(!Cell::Dead.is_alive());
}

#[test]
fn frame_characters_are_recognized() {
    assert!(contains_alpha_numeric_or_symbols("╔"));
    assert!(contains_alpha_numeric_or_symbols(" "));
    assert!(contains_alpha_numeric_or_symbols("╔═╝"));
    assert!(contains_alpha_numeric_or_symbols(""));
}

#[test]
fn other_text_is_not_recognized() {
    assert!(!contains_alpha_numeric_or_symbols("a"));
    assert!(!contains_alpha_numeric_or_symbols("qq"));
    assert!(!contains_alpha_numeric_or_symbols("═╔"));
    assert!(!contains_alpha_numeric_or_symbols("█"));
}
