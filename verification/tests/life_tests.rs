use game_of_life::cell::Coord;
use game_of_life::grid::Grid;
use game_of_life::lifes::{beacon_shape, blinker_shape, glider_shape, instantiate, pulsar_shape,
    toad_shape};
use game_of_life::mode::GameMode;

fn alive_cells(g: &Grid) -> Vec<(i32, i32)> {
    let mut v: Vec<(i32, i32)> = Vec::new();
    for y in 0..=g.height {
        for x in 0..=g.width {
            if g.cell_alive(x, y) {
                v.push((x, y));
            }
        }
    }
    v
}

fn sorted(mut v: Vec<(i32, i32)>) -> Vec<(i32, i32)> {
    v.sort();
    v
}

#[test]
fn stamp_sets_cells_alive_and_leaves_the_rest() {
    let mut g = Grid::new(12, 12);
    g.toggle(Coord::new(0, 0));
    g.stamp(&blinker_shape(), Coord::new(5, 5));
    assert_eq!(sorted(alive_cells(&g)), vec![(0, 0), (4, 5), (5, 5), (6, 5)]);
    // Stamping over live cells leaves them alive.
    g.stamp(&blinker_shape(), Coord::new(5, 5));
    assert_eq!(sorted(alive_cells(&g)), vec![(0, 0), (4, 5), (5, 5), (6, 5)]);
}

#[test]
fn stamp_skips_offsets_outside_the_domain() {
    let mut g = Grid::new(10, 10);
    g.stamp(&blinker_shape(), Coord::new(0, 0));
    assert_eq!(sorted(alive_cells(&g)), vec![(0, 0), (1, 0)]);
}

#[test]
fn blinker_oscillates_with_period_two() {
    let mut g = Grid::new(12, 12);
    let anchor = Coord::new(5, 5);
    g.stamp(&blinker_shape(), anchor);
    let seeded = sorted(alive_cells(&g));
    let g1 = g.step();
    assert_eq!(sorted(alive_cells(&g1)), vec![(5, 4), (5, 5), (5, 6)]);
    let g2 = g1.step();
    assert_eq!(sorted(alive_cells(&g2)), seeded);
}

#[test]
fn toad_oscillates_with_period_two() {
    let mut g = Grid::new(14, 14);
    g.stamp(&toad_shape(), Coord::new(6, 6));
    let seeded = sorted(alive_cells(&g));
    let g1 = g.step();
    assert_ne!(sorted(alive_cells(&g1)), seeded);
    let g2 = g1.step();
    assert_eq!(sorted(alive_cells(&g2)), seeded);
}

#[test]
fn beacon_oscillates_with_period_two() {
    let mut g = Grid::new(14, 14);
    g.stamp(&beacon_shape(), Coord::new(6, 6));
    let seeded = sorted(alive_cells(&g));
    let g1 = g.step();
    assert_ne!(sorted(alive_cells(&g1)), seeded);
    let g2 = g1.step();
    assert_eq!(sorted(alive_cells(&g2)), seeded);
}

#[test]
fn pulsar_oscillates_with_period_three() {
    let mut g = Grid::new(40, 40);
    g.stamp(&pulsar_shape(), Coord::new(20, 20));
    let seeded = sorted(alive_cells(&g));
    let g1 = g.step();
    assert_ne!(sorted(alive_cells(&g1)), seeded);
    let g2 = g1.step();
    assert_ne!(sorted(alive_cells(&g2)), seeded);
    let g3 = g2.step();
    assert_eq!(sorted(alive_cells(&g3)), seeded);
}

#[test]
fn glider_translates_diagonally_every_four_steps() {
    let mut g = Grid::new(20, 20);
    let anchor = Coord::new(2, 3);
    g.stamp(&glider_shape(), anchor);
    let mut cur = g;
    for _ in 0..4 {
        cur = cur.step();
    }
    let moved = instantiate(&glider_shape(), Coord::new(anchor.x + 1, anchor.y - 1));
    let expected: Vec<(i32, i32)> = moved.iter().map(|c| (c.x, c.y)).collect();
    assert_eq!(sorted(alive_cells(&cur)), sorted(expected));
}

#[test]
fn glider_keeps_drifting_across_the_grid() {
    let mut g = Grid::new(30, 30);
    let anchor = Coord::new(3, 25);
    g.stamp(&glider_shape(), anchor);
    let mut cur = g;
    for _ in 0..12 {
        cur = cur.step();
    }
    let moved = instantiate(&glider_shape(), Coord::new(anchor.x + 3, anchor.y - 3));
    let expected: Vec<(i32, i32)> = moved.iter().map(|c| (c.x, c.y)).collect();
    assert_eq!(sorted(alive_cells(&cur)), sorted(expected));
}

#[test]
fn game_mode_starts_paused_and_toggles() {
    let m = GameMode::default();
    assert_eq!(m, GameMode::Paused);
    assert!(!m.is_playing());
    let m2 = m.toggled();
    assert_eq!(m2, GameMode::Playing);
    assert!(m2.is_playing());
    assert_eq!(m2.toggled(), GameMode::Paused);
}
