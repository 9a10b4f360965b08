use game_of_life::cell::Coord;
use game_of_life::lifes::{
    beacon_shape, blinker_shape, glider_shape, instantiate, pulsar_shape, toad_shape,
};

fn pairs(v: &[Coord]) -> Vec<(i32, i32)> {
    v.iter().map(|c| (c.x, c.y)).collect()
}

#[test]
fn blinker_has_three_colinear_cells() {
    assert_eq!(pairs(&blinker_shape()), vec![(-1, 0), (0, 0), (1, 0)]);
}

#[test]
fn toad_has_two_offset_rows_of_three() {
    assert_eq!(
        pairs(&toad_shape()),
        vec![(-1, 0), (0, 0), (1, 0), (0, 1), (1, 1), (2, 1)]
    );
}

#[test]
fn beacon_has_two_diagonal_blocks() {
    assert_eq!(
        pairs(&beacon_shape()),
        vec![
            (-1, 1),
            (0, 1),
            (-1, 0),
            (0, 0),
            (1, -1),
            (2, -1),
            (1, -2),
            (2, -2)
        ]
    );
}

#[test]
fn glider_has_canonical_five_cells() {
    assert_eq!(pairs(&glider_shape()), vec![(0, 1), (1, 0), (2, 0), (2, 1), (2, 2)]);
}

#[test]
fn pulsar_has_forty_eight_symmetric_cells() {
    let p = pulsar_shape();
    assert_eq!(p.len(), 48);
    let expected = vec![
        (-4, 1),
        (-3, 1),
        (-2, 1),
        (2, 1),
        (3, 1),
        (4, 1),
        (-4, -1),
        (-3, -1),
        (-2, -1),
        (2, -1),
        (3, -1),
        (4, -1),
        (1, 2),
        (1, 3),
        (1, 4),
        (1, -4),
        (1, -3),
        (1, -2),
        (-1, 2),
        (-1, 3),
        (-1, 4),
        (-1, -4),
        (-1, -3),
        (-1, -2),
        (-6, 2),
        (-6, 3),
        (-6, 4),
        (6, 2),
        (6, 3),
        (6, 4),
        (-6, -2),
        (-6, -3),
        (-6, -4),
        (6, -2),
        (6, -3),
        (6, -4),
        (-4, 6),
        (-3, 6),
        (-2, 6),
        (4, 6),
        (3, 6),
        (2, 6),
        (-4, -6),
        (-3, -6),
        (-2, -6),
        (4, -6),
        (3, -6),
        (2, -6),
    ];
    assert_eq!(pairs(&p), expected);
    // 4-fold symmetry: the cell set is closed under negating either axis.
    let set: Vec<(i32, i32)> = pairs(&p);
    for &(x, y) in &set {
        assert!(set.contains(&(-x, y)));
        assert!(set.contains(&(x, -y)));
    }
}

#[test]
fn instantiate_translates_every_offset() {
    let g = glider_shape();
    let at = instantiate(&g, Coord::new(10, 20));
    assert_eq!(pairs(&at), vec![(10, 21), (11, 20), (12, 20), (12, 21), (12, 22)]);
}

#[test]
fn instantiate_at_origin_is_the_pattern_itself() {
    let b = blinker_shape();
    let at = instantiate(&b, Coord::new(0, 0));
    assert_eq!(pairs(&at), pairs(&b));
}

#[test]
fn instantiations_differ_by_the_anchor_difference() {
    let p = pulsar_shape();
    let a = Coord::new(3, 4);
    let b = Coord::new(-7, 11);
    let ra = instantiate(&p, a);
    let rb = instantiate(&p, b);
    assert_eq!(ra.len(), rb.len());
    for i in 0..ra.len() {
        assert_eq!(rb[i].x - ra[i].x, b.x - a.x);
        assert_eq!(rb[i].y - ra[i].y, b.y - a.y);
    }
}
