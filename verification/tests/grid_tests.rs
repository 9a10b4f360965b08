use game_of_life::cell::{Cell, Coord};
use game_of_life::cell_state::CellState;
use game_of_life::grid::Grid;

fn alive_cells(g: &Grid) -> Vec<(i32, i32)> {
    let mut v: Vec<(i32, i32)> = Vec::new();
    for y in 0..=g.height {
        for x in 0..=g.width {
            if g.cell_alive(x, y) {
                v.push((x, y));
            }
        }
    }
    v
}

#[test]
fn new_grid_is_all_dead() {
    let g = Grid::new(5, 7);
    assert_eq!(g.width, 5);
    assert_eq!(g.height, 7);
    assert_eq!(alive_cells(&g), Vec::<(i32, i32)>::new());
    let c = g.get(Coord::new(3, 3));
    assert_eq!(c, Some(CellState { is_alive: false }));
}

#[test]
fn get_outside_domain_is_none() {
    let g = Grid::new(5, 5);
    assert_eq!(g.get(Coord::new(-1, 0)), None);
    assert_eq!(g.get(Coord::new(0, -1)), None);
    assert_eq!(g.get(Coord::new(6, 0)), None);
    assert_eq!(g.get(Coord::new(0, 6)), None);
    assert_eq!(g.get(Coord::new(100, 100)), None);
    assert!(!g.cell_alive(-3, 2));
}

#[test]
fn set_and_get() {
    let mut g = Grid::new(8, 8);
    g.set(Coord::new(2, 3), CellState { is_alive: true });
    assert_eq!(g.get(Coord::new(2, 3)), Some(CellState { is_alive: true }));
    assert_eq!(g.get(Coord::new(3, 2)), Some(CellState { is_alive: false }));
    assert_eq!(alive_cells(&g), vec![(2, 3)]);
    g.set(Coord::new(2, 3), CellState { is_alive: false });
    assert_eq!(alive_cells(&g), Vec::<(i32, i32)>::new());
}

#[test]
fn set_outside_domain_is_a_noop() {
    let mut g = Grid::new(4, 4);
    g.set(Coord::new(-1, 2), CellState { is_alive: true });
    g.set(Coord::new(5, 2), CellState { is_alive: true });
    assert_eq!(alive_cells(&g), Vec::<(i32, i32)>::new());
}

#[test]
fn toggle_flips_in_place() {
    let mut g = Grid::new(4, 4);
    g.toggle(Coord::new(1, 1));
    assert!(g.cell_alive(1, 1));
    g.toggle(Coord::new(1, 1));
    assert!(!g.cell_alive(1, 1));
    g.toggle(Coord::new(-2, 0));
    assert_eq!(alive_cells(&g), Vec::<(i32, i32)>::new());
}

#[test]
fn cell_state_toggle_flips() {
    let mut s = CellState { is_alive: false };
    s.toggle();
    assert!(s.is_alive);
    s.toggle();
    assert!(!s.is_alive);
}

#[test]
fn from_alive_flags_seeds_row_major() {
    let flags = vec![true, false, false, true];
    let g = Grid::from_alive_flags(1, 1, &flags);
    assert_eq!(alive_cells(&g), vec![(0, 0), (1, 1)]);
}

#[test]
fn neighbor_coords_in_fixed_order() {
    let cell = Cell { coords: Coord::new(4, 7) };
    let n = cell.get_neighbor_coords();
    let expected = vec![
        (3, 6),
        (4, 6),
        (5, 6),
        (3, 7),
        (5, 7),
        (3, 8),
        (4, 8),
        (5, 8),
    ];
    let got: Vec<(i32, i32)> = n.iter().map(|c| (c.x, c.y)).collect();
    assert_eq!(got, expected);
}

#[test]
fn count_live_neighbors_at_corner() {
    let mut g = Grid::new(6, 6);
    g.set(Coord::new(0, 1), CellState { is_alive: true });
    g.set(Coord::new(1, 1), CellState { is_alive: true });
    assert_eq!(g.count_live_neighbors(0, 0), 2);
    assert_eq!(g.count_live_neighbors(1, 0), 2);
    assert_eq!(g.count_live_neighbors(0, 2), 2);
}

#[test]
fn step_is_deterministic() {
    let flags: Vec<bool> = (0..49).map(|i| i % 3 == 0 || i % 7 == 1).collect();
    let g = Grid::from_alive_flags(6, 6, &flags);
    let r1 = g.step();
    let r2 = g.step();
    assert_eq!(alive_cells(&r1), alive_cells(&r2));
    assert_eq!(r1.width, r2.width);
    assert_eq!(r1.height, r2.height);
}

#[test]
fn empty_grid_is_a_fixed_point() {
    let g = Grid::new(10, 10);
    let g2 = g.step();
    assert_eq!(g2.width, 10);
    assert_eq!(g2.height, 10);
    assert_eq!(alive_cells(&g2), Vec::<(i32, i32)>::new());
}

#[test]
fn lonely_corner_cell_dies() {
    let mut g = Grid::new(9, 9);
    g.set(Coord::new(0, 0), CellState { is_alive: true });
    let g2 = g.step();
    assert!(!g2.cell_alive(0, 0));
    assert_eq!(alive_cells(&g2), Vec::<(i32, i32)>::new());
}

#[test]
fn live_cell_with_one_neighbor_dies() {
    let mut g = Grid::new(10, 10);
    g.set(Coord::new(5, 5), CellState { is_alive: true });
    g.set(Coord::new(5, 6), CellState { is_alive: true });
    let g2 = g.step();
    assert_eq!(alive_cells(&g2), Vec::<(i32, i32)>::new());
}

#[test]
fn live_cell_with_four_neighbors_dies() {
    let mut g = Grid::new(10, 10);
    for (x, y) in [(5, 5), (5, 4), (5, 6), (4, 5), (6, 5)] {
        g.set(Coord::new(x, y), CellState { is_alive: true });
    }
    let g2 = g.step();
    assert!(!g2.cell_alive(5, 5));
}

#[test]
fn dead_cell_with_three_neighbors_is_born() {
    let mut g = Grid::new(10, 10);
    for (x, y) in [(5, 5), (6, 5), (5, 6)] {
        g.set(Coord::new(x, y), CellState { is_alive: true });
    }
    let g2 = g.step();
    assert!(g2.cell_alive(6, 6));
    assert_eq!(alive_cells(&g2), vec![(5, 5), (6, 5), (5, 6), (6, 6)]);
}

#[test]
fn dead_cell_with_two_neighbors_stays_dead() {
    let mut g = Grid::new(10, 10);
    g.set(Coord::new(5, 5), CellState { is_alive: true });
    g.set(Coord::new(6, 5), CellState { is_alive: true });
    let g2 = g.step();
    assert!(!g2.cell_alive(5, 6));
    assert_eq!(alive_cells(&g2), Vec::<(i32, i32)>::new());
}

#[test]
fn block_is_a_still_life() {
    let mut g = Grid::new(10, 10);
    for (x, y) in [(3, 3), (4, 3), (3, 4), (4, 4)] {
        g.set(Coord::new(x, y), CellState { is_alive: true });
    }
    let before = alive_cells(&g);
    let g2 = g.step();
    assert_eq!(alive_cells(&g2), before);
}

#[test]
fn step_does_not_mutate_the_input() {
    let mut g = Grid::new(8, 8);
    g.set(Coord::new(3, 3), CellState { is_alive: true });
    g.set(Coord::new(4, 3), CellState { is_alive: true });
    g.set(Coord::new(5, 3), CellState { is_alive: true });
    let before = alive_cells(&g);
    let _next = g.step();
    assert_eq!(alive_cells(&g), before);
}
