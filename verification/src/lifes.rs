use vstd::prelude::*;

use crate::cell::Coord;

verus! {

/// The Blinker: 3 colinear cells, a horizontal line. Period-2
/// oscillator.
pub open spec fn blinker_shape_spec() -> Seq<Coord> {
    seq![Coord { x: -1i32, y: 0 }, Coord { x: 0, y: 0 }, Coord { x: 1, y: 0 }]
}

/// The Toad: 6 cells, two offset rows of 3. Period-2 oscillator.
pub open spec fn toad_shape_spec() -> Seq<Coord> {
    seq![
        Coord { x: -1i32, y: 0 },
        Coord { x: 0, y: 0 },
        Coord { x: 1, y: 0 },
        Coord { x: 0, y: 1 },
        Coord { x: 1, y: 1 },
        Coord { x: 2, y: 1 },
    ]
}

/// The Beacon: 8 cells, two diagonal 2x2 blocks. Period-2 oscillator.
pub open spec fn beacon_shape_spec() -> Seq<Coord> {
    seq![
        Coord { x: -1i32, y: 1 },
        Coord { x: 0, y: 1 },
        Coord { x: -1i32, y: 0 },
        Coord { x: 0, y: 0 },
        Coord { x: 1, y: -1i32 },
        Coord { x: 2, y: -1i32 },
        Coord { x: 1, y: -2i32 },
        Coord { x: 2, y: -2i32 },
    ]
}

/// The Pulsar: 48 cells in a 4-fold symmetric arrangement of inner
/// and outer cross arms. Period-3 oscillator.
pub open spec fn pulsar_shape_spec() -> Seq<Coord> {
    seq![
        Coord { x: -4i32, y: 1 },
        Coord { x: -3i32, y: 1 },
        Coord { x: -2i32, y: 1 },
        Coord { x: 2, y: 1 },
        Coord { x: 3, y: 1 },
        Coord { x: 4, y: 1 },
        Coord { x: -4i32, y: -1i32 },
        Coord { x: -3i32, y: -1i32 },
        Coord { x: -2i32, y: -1i32 },
        Coord { x: 2, y: -1i32 },
        Coord { x: 3, y: -1i32 },
        Coord { x: 4, y: -1i32 },
        Coord { x: 1, y: 2 },
        Coord { x: 1, y: 3 },
        Coord { x: 1, y: 4 },
        Coord { x: 1, y: -4i32 },
        Coord { x: 1, y: -3i32 },
        Coord { x: 1, y: -2i32 },
        Coord { x: -1i32, y: 2 },
        Coord { x: -1i32, y: 3 },
        Coord { x: -1i32, y: 4 },
        Coord { x: -1i32, y: -4i32 },
        Coord { x: -1i32, y: -3i32 },
        Coord { x: -1i32, y: -2i32 },
        Coord { x: -6i32, y: 2 },
        Coord { x: -6i32, y: 3 },
        Coord { x: -6i32, y: 4 },
        Coord { x: 6, y: 2 },
        Coord { x: 6, y: 3 },
        Coord { x: 6, y: 4 },
        Coord { x: -6i32, y: -2i32 },
        Coord { x: -6i32, y: -3i32 },
        Coord { x: -6i32, y: -4i32 },
        Coord { x: 6, y: -2i32 },
        Coord { x: 6, y: -3i32 },
        Coord { x: 6, y: -4i32 },
        Coord { x: -4i32, y: 6 },
        Coord { x: -3i32, y: 6 },
        Coord { x: -2i32, y: 6 },
        Coord { x: 4, y: 6 },
        Coord { x: 3, y: 6 },
        Coord { x: 2, y: 6 },
        Coord { x: -4i32, y: -6i32 },
        Coord { x: -3i32, y: -6i32 },
        Coord { x: -2i32, y: -6i32 },
        Coord { x: 4, y: -6i32 },
        Coord { x: 3, y: -6i32 },
        Coord { x: 2, y: -6i32 },
    ]
}

/// The Glider: 5 cells in the canonical shape; under repeated
/// stepping it drifts diagonally by one cell every 4 generations.
pub open spec fn glider_shape_spec() -> Seq<Coord> {
    seq![
        Coord { x: 0, y: 1 },
        Coord { x: 1, y: 0 },
        Coord { x: 2, y: 0 },
        Coord { x: 2, y: 1 },
        Coord { x: 2, y: 2 },
    ]
}

/// The Blinker's offsets as a vector.
pub fn blinker_shape() -> (p: Vec<Coord>)
    ensures
        p@ == blinker_shape_spec(),
{
    let mut p: Vec<Coord> = Vec::new();
    p.push(Coord { x: -1, y: 0 });
    p.push(Coord { x: 0, y: 0 });
    p.push(Coord { x: 1, y: 0 });
    proof {
        assert(p@ =~= blinker_shape_spec());
    }
    p
}

/// The Toad's offsets as a vector.
pub fn toad_shape() -> (p: Vec<Coord>)
    ensures
        p@ == toad_shape_spec(),
{
    let mut p: Vec<Coord> = Vec::new();
    p.push(Coord { x: -1, y: 0 });
    p.push(Coord { x: 0, y: 0 });
    p.push(Coord { x: 1, y: 0 });
    p.push(Coord { x: 0, y: 1 });
    p.push(Coord { x: 1, y: 1 });
    p.push(Coord { x: 2, y: 1 });
    proof {
        assert(p@ =~= toad_shape_spec());
    }
    p
}

/// The Beacon's offsets as a vector.
pub fn beacon_shape() -> (p: Vec<Coord>)
    ensures
        p@ == beacon_shape_spec(),
{
    let mut p: Vec<Coord> = Vec::new();
    p.push(Coord { x: -1, y: 1 });
    p.push(Coord { x: 0, y: 1 });
    p.push(Coord { x: -1, y: 0 });
    p.push(Coord { x: 0, y: 0 });
    p.push(Coord { x: 1, y: -1 });
    p.push(Coord { x: 2, y: -1 });
    p.push(Coord { x: 1, y: -2 });
    p.push(Coord { x: 2, y: -2 });
    proof {
        assert(p@ =~= beacon_shape_spec());
    }
    p
}

/// The Pulsar's offsets as a vector.
#[verifier::rlimit(60)]
pub fn pulsar_shape() -> (p: Vec<Coord>)
    ensures
        p@ == pulsar_shape_spec(),
{
    let mut p: Vec<Coord> = Vec::new();
    p.push(Coord { x: -4, y: 1 });
    p.push(Coord { x: -3, y: 1 });
    p.push(Coord { x: -2, y: 1 });
    p.push(Coord { x: 2, y: 1 });
    p.push(Coord { x: 3, y: 1 });
    p.push(Coord { x: 4, y: 1 });
    p.push(Coord { x: -4, y: -1 });
    p.push(Coord { x: -3, y: -1 });
    p.push(Coord { x: -2, y: -1 });
    p.push(Coord { x: 2, y: -1 });
    p.push(Coord { x: 3, y: -1 });
    p.push(Coord { x: 4, y: -1 });
    p.push(Coord { x: 1, y: 2 });
    p.push(Coord { x: 1, y: 3 });
    p.push(Coord { x: 1, y: 4 });
    p.push(Coord { x: 1, y: -4 });
    p.push(Coord { x: 1, y: -3 });
    p.push(Coord { x: 1, y: -2 });
    p.push(Coord { x: -1, y: 2 });
    p.push(Coord { x: -1, y: 3 });
    p.push(Coord { x: -1, y: 4 });
    p.push(Coord { x: -1, y: -4 });
    p.push(Coord { x: -1, y: -3 });
    p.push(Coord { x: -1, y: -2 });
    p.push(Coord { x: -6, y: 2 });
    p.push(Coord { x: -6, y: 3 });
    p.push(Coord { x: -6, y: 4 });
    p.push(Coord { x: 6, y: 2 });
    p.push(Coord { x: 6, y: 3 });
    p.push(Coord { x: 6, y: 4 });
    p.push(Coord { x: -6, y: -2 });
    p.push(Coord { x: -6, y: -3 });
    p.push(Coord { x: -6, y: -4 });
    p.push(Coord { x: 6, y: -2 });
    p.push(Coord { x: 6, y: -3 });
    p.push(Coord { x: 6, y: -4 });
    p.push(Coord { x: -4, y: 6 });
    p.push(Coord { x: -3, y: 6 });
    p.push(Coord { x: -2, y: 6 });
    p.push(Coord { x: 4, y: 6 });
    p.push(Coord { x: 3, y: 6 });
    p.push(Coord { x: 2, y: 6 });
    p.push(Coord { x: -4, y: -6 });
    p.push(Coord { x: -3, y: -6 });
    p.push(Coord { x: -2, y: -6 });
    p.push(Coord { x: 4, y: -6 });
    p.push(Coord { x: 3, y: -6 });
    p.push(Coord { x: 2, y: -6 });
    proof {
        assert(p@ =~= pulsar_shape_spec());
    }
    p
}

/// The Glider's offsets as a vector.
pub fn glider_shape() -> (p: Vec<Coord>)
    ensures
        p@ == glider_shape_spec(),
{
    let mut p: Vec<Coord> = Vec::new();
    p.push(Coord { x: 0, y: 1 });
    p.push(Coord { x: 1, y: 0 });
    p.push(Coord { x: 2, y: 0 });
    p.push(Coord { x: 2, y: 1 });
    p.push(Coord { x: 2, y: 2 });
    proof {
        assert(p@ =~= glider_shape_spec());
    }
    p
}

/// `translated` is `pattern` with every offset moved by `anchor`
/// (elementwise vector addition).
pub open spec fn is_translation(pattern: Seq<Coord>, anchor: Coord, translated: Seq<Coord>) -> bool {
    &&& translated.len() == pattern.len()
    &&& forall|i: int| #![trigger translated[i]]
        0 <= i < pattern.len() ==> translated[i].x == pattern[i].x + anchor.x && translated[i].y
            == pattern[i].y + anchor.y
}

/// The pattern's offsets each translated by `anchor`: a pure
/// function with no side effects.
pub fn instantiate(pattern: &Vec<Coord>, anchor: Coord) -> (r: Vec<Coord>)
    requires
        forall|i: int| #![trigger pattern@[i]]
            0 <= i < pattern@.len() ==> i32::MIN <= pattern@[i].x + anchor.x <= i32::MAX
                && i32::MIN <= pattern@[i].y + anchor.y <= i32::MAX,
    ensures
        is_translation(pattern@, anchor, r@),
{
    let mut r: Vec<Coord> = Vec::new();
    let mut k: usize = 0;
    while k < pattern.len()
        invariant
            k <= pattern@.len(),
            r@.len() == k,
            forall|i: int| #![trigger pattern@[i]]
                0 <= i < pattern@.len() ==> i32::MIN <= pattern@[i].x + anchor.x <= i32::MAX
                    && i32::MIN <= pattern@[i].y + anchor.y <= i32::MAX,
            forall|i: int| #![trigger r@[i]]
                0 <= i < k ==> r@[i].x == pattern@[i].x + anchor.x && r@[i].y == pattern@[i].y
                    + anchor.y,
        decreases pattern@.len() - k,
    {
        let p = pattern[k];
        r.push(Coord { x: p.x + anchor.x, y: p.y + anchor.y });
        k = k + 1;
    }
    r
}

} // verus!
