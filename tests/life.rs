use life_grid::grid::Grid;
use life_grid::rules::{next_alive, paused_after};
use life_grid::{GRID_HEIGHT, GRID_WIDTH};

fn grid_with(width: usize, height: usize, live: &[(usize, usize)]) -> Grid {
    let mut g = Grid::new(width, height);
    for &(x, y) in live {
        g.set(x, y, true);
    }
    g
}

fn sorted_live(g: &Grid) -> Vec<(usize, usize)> {
    let mut v = g.live_cells();
    v.sort();
    v
}

fn sorted(mut v: Vec<(usize, usize)>) -> Vec<(usize, usize)> {
    v.sort();
    v
}

#[test]
fn rule_covers_every_count() {
    for count in 0..=8usize {
        assert_eq!(next_alive(false, count), count == 3);
        assert_eq!(next_alive(true, count), count == 2 || count == 3);
    }
}

#[test]
fn pause_toggles_only_on_press() {
    assert!(paused_after(false, true));
    assert!(!paused_after(true, true));
    assert!(paused_after(true, false));
    assert!(!paused_after(false, false));
}

#[test]
fn new_grid_is_empty_with_its_size() {
    let g = Grid::new(GRID_WIDTH, GRID_HEIGHT);
    assert_eq!(g.width(), 30);
    assert_eq!(g.height(), 20);
    assert!(g.live_cells().is_empty());
}

#[test]
fn random_grid_extremes() {
    let dead = Grid::random(7, 4, 0, 1000);
    assert_eq!((dead.width(), dead.height()), (7, 4));
    assert!(dead.live_cells().is_empty());
    let full = Grid::random(7, 4, 1000, 1000);
    assert_eq!(full.live_cells().len(), 28);
    let mostly = Grid::random(GRID_WIDTH, GRID_HEIGHT, 999, 1000);
    assert_eq!((mostly.width(), mostly.height()), (30, 20));
}

#[test]
fn single_cell_set_changes_only_that_cell() {
    let mut g = Grid::new(GRID_WIDTH, GRID_HEIGHT);
    g.set(4, 7, true);
    assert!(g.get(4, 7));
    assert_eq!(g.live_cells(), vec![(4, 7)]);
    g.set(4, 7, false);
    assert!(!g.get(4, 7));
}

#[test]
fn single_cell_dies_after_step() {
    let g = grid_with(GRID_WIDTH, GRID_HEIGHT, &[(4, 7)]);
    assert!(g.step().live_cells().is_empty());
}

#[test]
fn corner_counts_opposite_corner() {
    let g = grid_with(GRID_WIDTH, GRID_HEIGHT, &[(GRID_WIDTH - 1, GRID_HEIGHT - 1)]);
    assert_eq!(g.surrounding_count(0, 0), 1);
    assert_eq!(g.surrounding_count(1, 1), 0);
    assert_eq!(g.surrounding_count(GRID_WIDTH - 2, 0), 1);
}

#[test]
fn count_in_the_middle() {
    let g = grid_with(10, 10, &[(4, 4), (5, 4), (6, 4), (4, 5), (6, 5), (4, 6), (5, 6), (6, 6)]);
    assert_eq!(g.surrounding_count(5, 5), 8);
    assert_eq!(g.surrounding_count(4, 4), 2);
    assert_eq!(g.surrounding_count(0, 0), 0);
}

#[test]
fn count_on_a_tiny_torus_repeats_cells() {
    let g = grid_with(1, 1, &[(0, 0)]);
    assert_eq!(g.surrounding_count(0, 0), 8);
    assert!(g.step().live_cells().is_empty());
}

#[test]
fn birth_with_three_neighbours() {
    let g = grid_with(GRID_WIDTH, GRID_HEIGHT, &[(1, 0), (0, 1), (2, 2)]);
    assert!(!g.get(1, 1));
    assert_eq!(g.surrounding_count(1, 1), 3);
    assert!(g.step().get(1, 1));
}

#[test]
fn birth_across_the_edges() {
    let g = grid_with(GRID_WIDTH, GRID_HEIGHT, &[(29, 19), (0, 19), (29, 0)]);
    assert_eq!(g.surrounding_count(0, 0), 3);
    assert!(g.step().get(0, 0));
}

#[test]
fn survival_with_two_or_three() {
    let two = grid_with(10, 10, &[(5, 5), (4, 5), (6, 5)]);
    assert!(two.step().get(5, 5));
    let three = grid_with(10, 10, &[(5, 5), (4, 4), (6, 6), (4, 6)]);
    assert_eq!(three.surrounding_count(5, 5), 3);
    assert!(three.step().get(5, 5));
}

#[test]
fn death_by_under_and_overpopulation() {
    let lonely = grid_with(10, 10, &[(5, 5), (4, 4)]);
    assert!(!lonely.step().get(5, 5));
    let crowded = grid_with(10, 10, &[(5, 5), (4, 4), (5, 4), (6, 4), (4, 5)]);
    assert_eq!(crowded.surrounding_count(5, 5), 4);
    assert!(!crowded.step().get(5, 5));
    let dead_with_two = grid_with(10, 10, &[(4, 4), (6, 6)]);
    assert!(!dead_with_two.step().get(5, 5));
}

#[test]
fn survival_does_not_revive_a_dead_cell_with_two() {
    let g = grid_with(10, 10, &[(4, 5), (6, 5)]);
    assert_eq!(g.surrounding_count(5, 5), 2);
    assert!(!g.step().get(5, 5));
}

#[test]
fn block_is_still() {
    let cells = [(10, 10), (11, 10), (10, 11), (11, 11)];
    let g = grid_with(GRID_WIDTH, GRID_HEIGHT, &cells);
    assert_eq!(sorted_live(&g.step()), sorted(cells.to_vec()));
}

#[test]
fn block_across_the_corner_is_still() {
    let cells = [(29, 19), (0, 19), (29, 0), (0, 0)];
    let g = grid_with(GRID_WIDTH, GRID_HEIGHT, &cells);
    assert_eq!(sorted_live(&g.step()), sorted(cells.to_vec()));
}

#[test]
fn blinker_oscillates() {
    let horizontal = vec![(4, 5), (5, 5), (6, 5)];
    let vertical = vec![(5, 4), (5, 5), (5, 6)];
    let g = grid_with(GRID_WIDTH, GRID_HEIGHT, &horizontal);
    let once = g.step();
    assert_eq!(sorted_live(&once), sorted(vertical));
    let twice = once.step();
    assert_eq!(sorted_live(&twice), sorted(horizontal));
}

#[test]
fn empty_grid_stays_empty() {
    let g = Grid::new(GRID_WIDTH, GRID_HEIGHT);
    assert!(g.step().live_cells().is_empty());
}

#[test]
fn step_is_deterministic() {
    let g = Grid::random(GRID_WIDTH, GRID_HEIGHT, 1, 2);
    let a = g.step();
    let b = g.step();
    assert_eq!(sorted_live(&a), sorted_live(&b));
}

#[test]
fn step_leaves_input_untouched() {
    let g = grid_with(GRID_WIDTH, GRID_HEIGHT, &[(4, 5), (5, 5), (6, 5)]);
    let _ = g.step();
    assert_eq!(sorted_live(&g), vec![(4, 5), (5, 5), (6, 5)]);
}

#[test]
fn snapshot_is_independent() {
    let mut g = grid_with(5, 5, &[(1, 1)]);
    let snap = g.clone_snapshot();
    g.set(2, 2, true);
    assert_eq!(snap.live_cells(), vec![(1, 1)]);
    assert_eq!(sorted_live(&g), vec![(1, 1), (2, 2)]);
}

#[test]
fn tick_steps_only_when_due() {
    let mut g = grid_with(GRID_WIDTH, GRID_HEIGHT, &[(4, 5), (5, 5), (6, 5)]);
    g.tick(false);
    assert_eq!(sorted_live(&g), vec![(4, 5), (5, 5), (6, 5)]);
    g.tick(true);
    assert_eq!(sorted_live(&g), vec![(5, 4), (5, 5), (5, 6)]);
}

#[test]
fn add_cell_ignores_out_of_range() {
    let mut g = Grid::new(GRID_WIDTH, GRID_HEIGHT);
    assert!(!g.add_cell(-1, 3));
    assert!(!g.add_cell(3, -1));
    assert!(!g.add_cell(30, 3));
    assert!(!g.add_cell(3, 20));
    assert!(g.live_cells().is_empty());
    assert!(g.add_cell(29, 19));
    assert!(g.add_cell(0, 0));
    assert_eq!(sorted_live(&g), vec![(0, 0), (29, 19)]);
}

#[test]
fn live_cells_lists_each_once() {
    let g = grid_with(3, 2, &[(2, 0), (0, 1), (2, 0)]);
    assert_eq!(sorted_live(&g), vec![(0, 1), (2, 0)]);
}

#[test]
fn from_cells_lays_out_rows() {
    let g = Grid::from_cells(3, 2, vec![true, false, false, false, true, true]);
    assert_eq!((g.width(), g.height()), (3, 2));
    assert!(g.get(0, 0));
    assert!(!g.get(1, 0));
    assert!(!g.get(0, 1));
    assert!(g.get(1, 1));
    assert!(g.get(2, 1));
    assert_eq!(sorted_live(&g), vec![(0, 0), (1, 1), (2, 1)]);
}

#[test]
fn from_cells_feeds_the_step() {
    let mut cells = vec![false; 5 * 5];
    cells[2 * 5 + 1] = true;
    cells[2 * 5 + 2] = true;
    cells[2 * 5 + 3] = true;
    let g = Grid::from_cells(5, 5, cells);
    assert_eq!(sorted_live(&g.step()), vec![(2, 1), (2, 2), (2, 3)]);
}
