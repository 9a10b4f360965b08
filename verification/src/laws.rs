use vstd::prelude::*;

use crate::cell::Coord;
use crate::grid::Grid;
use crate::grid::covers;
use crate::grid::covers_prefix;
use crate::grid::lemma_idx_surjective;
use crate::lifes::blinker_shape_spec;
use crate::lifes::glider_shape_spec;
use crate::lifes::is_translation;

verus! {

/// For all grids and all coordinates outside the grid's domain,
/// `get` returns `None`: an off-grid lookup is no error, only the
/// absence of a neighbor contribution.
pub proof fn lemma_get_off_domain(g: Grid, x: int, y: int)
    requires
        !g.in_domain(x, y),
    ensures
        g.get_spec(x, y) is None,
{
}

/// Two well-formed grids of the same dimensions whose cells agree at
/// every coordinate are the same store.
pub proof fn lemma_grid_determined(g1: Grid, g2: Grid)
    requires
        g1.wf(),
        g2.wf(),
        g1.width == g2.width,
        g1.height == g2.height,
        forall|x: int, y: int| #![trigger g1.alive_at(x, y)] g1.alive_at(x, y) == g2.alive_at(x, y),
    ensures
        Grid::same_grid(g1, g2),
{
    let w = g1.width as int;
    let h = g1.height as int;
    assert forall|i: int| 0 <= i < g1.cells@.len() implies g1.cells@[i] == g2.cells@[i] by {
        lemma_idx_surjective(w, h, i);
        let x = i % (w + 1);
        let y = i / (w + 1);
        assert(g1.idx(x, y) == i);
        assert(g1.alive_at(x, y) == g2.alive_at(x, y));
        assert(g1.cells@[i].is_alive == g2.cells@[i].is_alive);
    }
    assert(g1.cells@ =~= g2.cells@);
}

/// The step relation is deterministic: any two generations that
/// follow the same grid are the same store. There is no hidden
/// randomness inside a step.
pub proof fn lemma_step_deterministic(g: Grid, r1: Grid, r2: Grid)
    requires
        g.wf(),
        Grid::is_step_of(g, r1),
        Grid::is_step_of(g, r2),
    ensures
        Grid::same_grid(r1, r2),
{
    assert forall|x: int, y: int| #![trigger r1.alive_at(x, y)]
        r1.alive_at(x, y) == r2.alive_at(x, y) by {
        assert(r2.alive_at(x, y) == (g.in_domain(x, y) && Grid::next_alive(
            g.alive_at(x, y),
            g.neighbor_count(x, y),
        )));
    }
    lemma_grid_determined(r1, r2);
}

/// The Conway rule, case by case: a live cell with exactly 2 or 3
/// live neighbors stays alive; a live cell with fewer than 2 or more
/// than 3 dies; a dead cell with exactly 3 becomes alive; every other
/// dead cell stays dead.
pub proof fn lemma_step_rule_cases(g: Grid, g2: Grid, x: int, y: int)
    requires
        Grid::is_step_of(g, g2),
        g.in_domain(x, y),
    ensures
        g.alive_at(x, y) && (g.neighbor_count(x, y) == 2 || g.neighbor_count(x, y) == 3)
            ==> g2.alive_at(x, y),
        g.alive_at(x, y) && (g.neighbor_count(x, y) < 2 || g.neighbor_count(x, y) > 3)
            ==> !g2.alive_at(x, y),
        !g.alive_at(x, y) && g.neighbor_count(x, y) == 3 ==> g2.alive_at(x, y),
        !g.alive_at(x, y) && g.neighbor_count(x, y) != 3 ==> !g2.alive_at(x, y),
{
}

/// Stability: a grid with every cell dead maps to itself under the
/// step; the empty grid is a fixed point.
pub proof fn lemma_empty_grid_fixed_point(g: Grid, g2: Grid)
    requires
        g.wf(),
        forall|x: int, y: int| !(#[trigger] g.alive_at(x, y)),
        Grid::is_step_of(g, g2),
    ensures
        Grid::same_grid(g2, g),
{
    assert forall|x: int, y: int| #![trigger g2.alive_at(x, y)]
        g2.alive_at(x, y) == g.alive_at(x, y) by {
        assert(g.neighbor_count(x, y) == 0);
    }
    lemma_grid_determined(g2, g);
}

/// Boundary policy: a live corner cell of the domain with no live
/// neighbors dies after one step. Its off-grid neighbors count as
/// dead, so its live-neighbor count is 0.
pub proof fn lemma_lonely_corner_dies(g: Grid, g2: Grid, cx: int, cy: int)
    requires
        g.wf(),
        Grid::is_step_of(g, g2),
        cx == 0 || cx == g.width,
        cy == 0 || cy == g.height,
        g.alive_at(cx, cy),
        forall|x: int, y: int| #![trigger g.alive_at(x, y)]
            g.in_domain(x, y) && !(x == cx && y == cy) && cx - 1 <= x <= cx + 1 && cy - 1 <= y <= cy
                + 1 ==> !g.alive_at(x, y),
    ensures
        !g2.alive_at(cx, cy),
{
    assert(g.neighbor_count(cx, cy) == 0);
}

/// Stamping is seeding by instantiation: the cells that stamping a
/// pattern at an anchor covers are exactly the coordinates that
/// instantiating the pattern at that anchor returns.
pub proof fn lemma_stamp_covers_instantiation(
    pattern: Seq<Coord>,
    anchor: Coord,
    translated: Seq<Coord>,
)
    requires
        is_translation(pattern, anchor, translated),
    ensures
        forall|c: Coord| #![trigger translated.contains(c)]
            translated.contains(c) == covers(pattern, anchor, c.x as int, c.y as int),
{
    assert forall|c: Coord| #![trigger translated.contains(c)]
        translated.contains(c) == covers(pattern, anchor, c.x as int, c.y as int) by {
        if translated.contains(c) {
            let i = choose|i: int| 0 <= i < translated.len() && translated[i] == c;
            assert(pattern[i].x + anchor.x == c.x && pattern[i].y + anchor.y == c.y);
            assert(covers_prefix(pattern, anchor, pattern.len() as int, c.x as int, c.y as int));
        }
        if covers(pattern, anchor, c.x as int, c.y as int) {
            let i = choose|i: int|
                0 <= i < pattern.len() as int && #[trigger] pattern[i].x + anchor.x == c.x
                    && pattern[i].y + anchor.y == c.y;
            assert(translated[i].x == c.x && translated[i].y == c.y);
            assert(translated[i] == c);
            assert(translated.contains(c));
        }
    }
}

/// The Blinker's horizontal phase, anchored at `a`: three colinear
/// cells in the row of `a`.
pub open spec fn blinker_row_at(a: Coord, x: int, y: int) -> bool {
    y == a.y && a.x - 1 <= x <= a.x + 1
}

/// The Blinker's vertical phase, anchored at `a`: three colinear
/// cells in the column of `a`.
pub open spec fn blinker_column_at(a: Coord, x: int, y: int) -> bool {
    x == a.x && a.y - 1 <= y <= a.y + 1
}

/// Stamping the Blinker at `a` covers exactly its horizontal phase.
proof fn lemma_blinker_covers(a: Coord)
    ensures
        forall|x: int, y: int| #![trigger covers(blinker_shape_spec(), a, x, y)]
            covers(blinker_shape_spec(), a, x, y) == blinker_row_at(a, x, y),
{
    let p = blinker_shape_spec();
    assert forall|x: int, y: int| #![trigger covers(p, a, x, y)]
        covers(p, a, x, y) == blinker_row_at(a, x, y) by {
        if blinker_row_at(a, x, y) {
            let i = x - a.x + 1;
            assert(0 <= i < p.len() && p[i].x + a.x == x && p[i].y + a.y == y);
            assert(covers_prefix(p, a, p.len() as int, x, y));
        }
        if covers(p, a, x, y) {
            let i = choose|i: int|
                0 <= i < p.len() as int && #[trigger] p[i].x + a.x == x && p[i].y + a.y == y;
            assert(blinker_row_at(a, x, y));
        }
    }
}

/// One step turns the Blinker's horizontal phase into its vertical
/// phase, anchored one cell clear of the boundary.
proof fn lemma_blinker_row_to_column(pre: Grid, post: Grid, a: Coord)
    requires
        1 <= a.x,
        a.x + 1 <= pre.width,
        1 <= a.y,
        a.y + 1 <= pre.height,
        forall|x: int, y: int| #![trigger pre.alive_at(x, y)]
            pre.alive_at(x, y) == blinker_row_at(a, x, y),
        Grid::is_step_of(pre, post),
    ensures
        forall|x: int, y: int| #![trigger post.alive_at(x, y)]
            post.alive_at(x, y) == blinker_column_at(a, x, y),
{
    assert forall|x: int, y: int| #![trigger post.alive_at(x, y)]
        post.alive_at(x, y) == blinker_column_at(a, x, y) by {
        assert(post.alive_at(x, y) == (pre.in_domain(x, y) && Grid::next_alive(
            pre.alive_at(x, y),
            pre.neighbor_count(x, y),
        )));
    }
}

/// One step turns the Blinker's vertical phase back into its
/// horizontal phase.
proof fn lemma_blinker_column_to_row(pre: Grid, post: Grid, a: Coord)
    requires
        1 <= a.x,
        a.x + 1 <= pre.width,
        1 <= a.y,
        a.y + 1 <= pre.height,
        forall|x: int, y: int| #![trigger pre.alive_at(x, y)]
            pre.alive_at(x, y) == blinker_column_at(a, x, y),
        Grid::is_step_of(pre, post),
    ensures
        forall|x: int, y: int| #![trigger post.alive_at(x, y)]
            post.alive_at(x, y) == blinker_row_at(a, x, y),
{
    assert forall|x: int, y: int| #![trigger post.alive_at(x, y)]
        post.alive_at(x, y) == blinker_row_at(a, x, y) by {
        assert(post.alive_at(x, y) == (pre.in_domain(x, y) && Grid::next_alive(
            pre.alive_at(x, y),
            pre.neighbor_count(x, y),
        )));
    }
}

/// Oscillator law: a grid holding exactly the Blinker stamped at
/// `a`, one cell clear of the boundary, returns to the same alive
/// set after two steps (period 2).
pub proof fn lemma_blinker_period_two(g0: Grid, g1: Grid, g2: Grid, a: Coord)
    requires
        1 <= a.x,
        a.x + 1 <= g0.width,
        1 <= a.y,
        a.y + 1 <= g0.height,
        forall|x: int, y: int| #![trigger g0.alive_at(x, y)]
            g0.alive_at(x, y) == covers(blinker_shape_spec(), a, x, y),
        Grid::is_step_of(g0, g1),
        Grid::is_step_of(g1, g2),
    ensures
        forall|x: int, y: int| #![trigger g2.alive_at(x, y)]
            g2.alive_at(x, y) == covers(blinker_shape_spec(), a, x, y),
{
    lemma_blinker_covers(a);
    assert forall|x: int, y: int| #![trigger g0.alive_at(x, y)]
        g0.alive_at(x, y) == blinker_row_at(a, x, y) by {
        assert(covers(blinker_shape_spec(), a, x, y) == blinker_row_at(a, x, y));
    }
    lemma_blinker_row_to_column(g0, g1, a);
    lemma_blinker_column_to_row(g1, g2, a);
    assert forall|x: int, y: int| #![trigger g2.alive_at(x, y)]
        g2.alive_at(x, y) == covers(blinker_shape_spec(), a, x, y) by {
        assert(covers(blinker_shape_spec(), a, x, y) == blinker_row_at(a, x, y));
    }
}

/// The Glider as stamped: its first phase, anchored at `a`.
pub open spec fn glider_phase0_at(a: Coord, x: int, y: int) -> bool {
    ||| (x == a.x && y == a.y + 1)
    ||| (x == a.x + 1 && y == a.y)
    ||| (x == a.x + 2 && y == a.y)
    ||| (x == a.x + 2 && y == a.y + 1)
    ||| (x == a.x + 2 && y == a.y + 2)
}

/// The Glider one step after stamping at `a`.
spec fn glider_phase1_at(a: Coord, x: int, y: int) -> bool {
    ||| (x == a.x + 1 && y == a.y)
    ||| (x == a.x + 2 && y == a.y)
    ||| (x == a.x + 2 && y == a.y + 1)
    ||| (x == a.x + 1 && y == a.y + 2)
    ||| (x == a.x + 3 && y == a.y + 1)
}

/// The Glider two steps after stamping at `a`.
spec fn glider_phase2_at(a: Coord, x: int, y: int) -> bool {
    ||| (x == a.x + 1 && y == a.y)
    ||| (x == a.x + 2 && y == a.y)
    ||| (x == a.x + 3 && y == a.y)
    ||| (x == a.x + 3 && y == a.y + 1)
    ||| (x == a.x + 2 && y == a.y + 2)
}

/// The Glider three steps after stamping at `a`.
spec fn glider_phase3_at(a: Coord, x: int, y: int) -> bool {
    ||| (x == a.x + 2 && y == a.y - 1)
    ||| (x == a.x + 2 && y == a.y)
    ||| (x == a.x + 3 && y == a.y)
    ||| (x == a.x + 3 && y == a.y + 1)
    ||| (x == a.x + 1 && y == a.y + 1)
}

/// Margins that keep every cell the Glider touches over four steps
/// inside the domain of a grid with `pre`'s dimensions.
spec fn glider_clear_of_boundary(pre: Grid, a: Coord) -> bool {
    &&& 0 <= a.x
    &&& a.x + 3 <= pre.width
    &&& 1 <= a.y
    &&& a.y + 2 <= pre.height
}

/// Stamping the Glider at `a` covers exactly its first phase.
proof fn lemma_glider_covers(a: Coord)
    ensures
        forall|x: int, y: int| #![trigger covers(glider_shape_spec(), a, x, y)]
            covers(glider_shape_spec(), a, x, y) == glider_phase0_at(a, x, y),
{
    let p = glider_shape_spec();
    assert forall|x: int, y: int| #![trigger covers(p, a, x, y)]
        covers(p, a, x, y) == glider_phase0_at(a, x, y) by {
        if glider_phase0_at(a, x, y) {
            if x == a.x && y == a.y + 1 {
                assert(p[0].x + a.x == x && p[0].y + a.y == y);
            } else if x == a.x + 1 && y == a.y {
                assert(p[1].x + a.x == x && p[1].y + a.y == y);
            } else if x == a.x + 2 && y == a.y {
                assert(p[2].x + a.x == x && p[2].y + a.y == y);
            } else if x == a.x + 2 && y == a.y + 1 {
                assert(p[3].x + a.x == x && p[3].y + a.y == y);
            } else {
                assert(p[4].x + a.x == x && p[4].y + a.y == y);
            }
            assert(covers_prefix(p, a, p.len() as int, x, y));
        }
        if covers(p, a, x, y) {
            let i = choose|i: int|
                0 <= i < p.len() as int && #[trigger] p[i].x + a.x == x && p[i].y + a.y == y;
            assert(glider_phase0_at(a, x, y));
        }
    }
}

/// One step takes the Glider from its first to its second phase.
proof fn lemma_glider_step_one(pre: Grid, post: Grid, a: Coord)
    requires
        glider_clear_of_boundary(pre, a),
        forall|x: int, y: int| #![trigger pre.alive_at(x, y)]
            pre.alive_at(x, y) == glider_phase0_at(a, x, y),
        Grid::is_step_of(pre, post),
    ensures
        forall|x: int, y: int| #![trigger post.alive_at(x, y)]
            post.alive_at(x, y) == glider_phase1_at(a, x, y),
{
    assert forall|x: int, y: int| #![trigger post.alive_at(x, y)]
        post.alive_at(x, y) == glider_phase1_at(a, x, y) by {
        assert(post.alive_at(x, y) == (pre.in_domain(x, y) && Grid::next_alive(
            pre.alive_at(x, y),
            pre.neighbor_count(x, y),
        )));
    }
}

/// One step takes the Glider from its second to its third phase.
proof fn lemma_glider_step_two(pre: Grid, post: Grid, a: Coord)
    requires
        glider_clear_of_boundary(pre, a),
        forall|x: int, y: int| #![trigger pre.alive_at(x, y)]
            pre.alive_at(x, y) == glider_phase1_at(a, x, y),
        Grid::is_step_of(pre, post),
    ensures
        forall|x: int, y: int| #![trigger post.alive_at(x, y)]
            post.alive_at(x, y) == glider_phase2_at(a, x, y),
{
    assert forall|x: int, y: int| #![trigger post.alive_at(x, y)]
        post.alive_at(x, y) == glider_phase2_at(a, x, y) by {
        assert(post.alive_at(x, y) == (pre.in_domain(x, y) && Grid::next_alive(
            pre.alive_at(x, y),
            pre.neighbor_count(x, y),
        )));
    }
}

/// One step takes the Glider from its third to its fourth phase.
proof fn lemma_glider_step_three(pre: Grid, post: Grid, a: Coord)
    requires
        glider_clear_of_boundary(pre, a),
        forall|x: int, y: int| #![trigger pre.alive_at(x, y)]
            pre.alive_at(x, y) == glider_phase2_at(a, x, y),
        Grid::is_step_of(pre, post),
    ensures
        forall|x: int, y: int| #![trigger post.alive_at(x, y)]
            post.alive_at(x, y) == glider_phase3_at(a, x, y),
{
    assert forall|x: int, y: int| #![trigger post.alive_at(x, y)]
        post.alive_at(x, y) == glider_phase3_at(a, x, y) by {
        assert(post.alive_at(x, y) == (pre.in_domain(x, y) && Grid::next_alive(
            pre.alive_at(x, y),
            pre.neighbor_count(x, y),
        )));
    }
}

/// One step takes the Glider from its fourth phase to its first
/// phase translated diagonally by (1, -1).
proof fn lemma_glider_step_four(pre: Grid, post: Grid, a: Coord)
    requires
        glider_clear_of_boundary(pre, a),
        forall|x: int, y: int| #![trigger pre.alive_at(x, y)]
            pre.alive_at(x, y) == glider_phase3_at(a, x, y),
        Grid::is_step_of(pre, post),
    ensures
        forall|x: int, y: int| #![trigger post.alive_at(x, y)]
            post.alive_at(x, y) == glider_phase0_at(
                (Coord { x: (a.x + 1) as i32, y: (a.y - 1) as i32 }),
                x,
                y,
            ),
{
    let b = Coord { x: (a.x + 1) as i32, y: (a.y - 1) as i32 };
    assert forall|x: int, y: int| #![trigger post.alive_at(x, y)]
        post.alive_at(x, y) == glider_phase0_at(b, x, y) by {
        assert(post.alive_at(x, y) == (pre.in_domain(x, y) && Grid::next_alive(
            pre.alive_at(x, y),
            pre.neighbor_count(x, y),
        )));
    }
}

/// Translation law: a grid holding exactly the Glider stamped at
/// `a`, clear of the boundary, holds after four steps exactly the
/// Glider stamped at `a` translated diagonally by one cell: the
/// drift is emergent from the rule alone.
pub proof fn lemma_glider_translates(
    g0: Grid,
    g1: Grid,
    g2: Grid,
    g3: Grid,
    g4: Grid,
    a: Coord,
)
    requires
        0 <= a.x,
        a.x + 3 <= g0.width,
        1 <= a.y,
        a.y + 2 <= g0.height,
        forall|x: int, y: int| #![trigger g0.alive_at(x, y)]
            g0.alive_at(x, y) == covers(glider_shape_spec(), a, x, y),
        Grid::is_step_of(g0, g1),
        Grid::is_step_of(g1, g2),
        Grid::is_step_of(g2, g3),
        Grid::is_step_of(g3, g4),
    ensures
        forall|x: int, y: int| #![trigger g4.alive_at(x, y)]
            g4.alive_at(x, y) == covers(
                glider_shape_spec(),
                (Coord { x: (a.x + 1) as i32, y: (a.y - 1) as i32 }),
                x,
                y,
            ),
{
    let b = Coord { x: (a.x + 1) as i32, y: (a.y - 1) as i32 };
    lemma_glider_covers(a);
    lemma_glider_covers(b);
    assert forall|x: int, y: int| #![trigger g0.alive_at(x, y)]
        g0.alive_at(x, y) == glider_phase0_at(a, x, y) by {
        assert(covers(glider_shape_spec(), a, x, y) == glider_phase0_at(a, x, y));
    }
    lemma_glider_step_one(g0, g1, a);
    lemma_glider_step_two(g1, g2, a);
    lemma_glider_step_three(g2, g3, a);
    lemma_glider_step_four(g3, g4, a);
    assert forall|x: int, y: int| #![trigger g4.alive_at(x, y)]
        g4.alive_at(x, y) == covers(glider_shape_spec(), b, x, y) by {
        assert(covers(glider_shape_spec(), b, x, y) == glider_phase0_at(b, x, y));
    }
}

/// Pattern instantiation is a pure translation: instantiating the
/// same pattern at two anchors gives coordinate sequences that differ
/// by exactly the difference of the anchors, at every position.
pub proof fn lemma_instantiate_translation(
    pattern: Seq<Coord>,
    a: Coord,
    b: Coord,
    ra: Seq<Coord>,
    rb: Seq<Coord>,
)
    requires
        is_translation(pattern, a, ra),
        is_translation(pattern, b, rb),
    ensures
        rb.len() == ra.len(),
        forall|i: int| #![trigger ra[i], rb[i]]
            0 <= i < ra.len() ==> rb[i].x - ra[i].x == b.x - a.x && rb[i].y - ra[i].y == b.y - a.y,
{
}

} // verus!
