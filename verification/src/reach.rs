//! Walkable paths on the grid.
//!
//! A path is a sequence of open tiles in which each tile is the horizontal
//! or vertical neighbour of the one before it. Two tiles are connected when
//! a path leads from one to the other. The lemmas here are what level
//! generation needs to show that every room can be walked to.

use vstd::prelude::*;
use crate::map::{between, open_at, Rect, Tile};

verus! {

/// Whether `b` is the horizontal or vertical neighbour of `a`.
pub open spec fn is_step(a: (int, int), b: (int, int)) -> bool {
    ||| a.0 == b.0 && (a.1 == b.1 + 1 || a.1 + 1 == b.1)
    ||| a.1 == b.1 && (a.0 == b.0 + 1 || a.0 + 1 == b.0)
}

/// Whether `path` is a non-empty walk over open tiles.
pub open spec fn is_path(map: Seq<Vec<Tile>>, path: Seq<(int, int)>) -> bool {
    &&& path.len() > 0
    &&& forall|i: int| 0 <= i < path.len() ==> open_at(map, (#[trigger] path[i]).0, path[i].1)
    &&& forall|i: int| 0 <= i < path.len() - 1 ==> is_step(#[trigger] path[i], path[i + 1])
}

/// Whether a walk over open tiles leads from `a` to `b`.
pub open spec fn connected(map: Seq<Vec<Tile>>, a: (int, int), b: (int, int)) -> bool {
    exists|path: Seq<(int, int)>| #[trigger] is_path(map, path) && path[0] == a && path.last() == b
}

/// Whether every open tile of the grid can be walked to from `start`.
pub open spec fn all_open_reachable(map: Seq<Vec<Tile>>, start: (int, int)) -> bool {
    forall|x: int, y: int| #[trigger] open_at(map, x, y) ==> connected(map, start, (x, y))
}

/// Whether everything open in `a` is open in `b` as well.
pub open spec fn opens_more(a: Seq<Vec<Tile>>, b: Seq<Vec<Tile>>) -> bool {
    forall|x: int, y: int| #[trigger] open_at(a, x, y) ==> open_at(b, x, y)
}

/// An open tile is connected to itself.
pub proof fn lemma_connected_refl(map: Seq<Vec<Tile>>, a: (int, int))
    requires
        open_at(map, a.0, a.1),
    ensures
        connected(map, a, a),
{
    let path = seq![a];
    assert(is_path(map, path));
    assert(path[0] == a && path.last() == a);
}

/// Walks can be joined end to end.
pub proof fn lemma_connected_trans(map: Seq<Vec<Tile>>, a: (int, int), b: (int, int), c: (int, int))
    requires
        connected(map, a, b),
        connected(map, b, c),
    ensures
        connected(map, a, c),
{
    let p = choose|path: Seq<(int, int)>| #[trigger]
        is_path(map, path) && path[0] == a && path.last() == b;
    let q = choose|path: Seq<(int, int)>| #[trigger]
        is_path(map, path) && path[0] == b && path.last() == c;
    let r = p + q.drop_first();
    assert forall|i: int| 0 <= i < r.len() implies open_at(map, (#[trigger] r[i]).0, r[i].1) by {
        if i < p.len() {
            assert(r[i] == p[i]);
        } else {
            assert(r[i] == q[i - p.len() + 1]);
        }
    }
    assert forall|i: int| 0 <= i < r.len() - 1 implies is_step(#[trigger] r[i], r[i + 1]) by {
        if i < p.len() - 1 {
            assert(r[i] == p[i]);
            assert(r[i + 1] == p[i + 1]);
        } else if i == p.len() - 1 {
            assert(r[i] == p[i]);
            assert(p[i] == q[0]);
            assert(r[i + 1] == q[1]);
            assert(is_step(q[0int], q[0int + 1]));
        } else {
            assert(r[i] == q[i - p.len() + 1]);
            assert(r[i + 1] == q[i - p.len() + 1 + 1]);
        }
    }
    assert(is_path(map, r));
    assert(r[0] == a);
    if q.len() == 1 {
        assert(r =~= p);
        assert(r.last() == c);
    } else {
        assert(r.last() == q.last());
    }
}

/// Two neighbouring open tiles are connected.
pub proof fn lemma_connected_step(map: Seq<Vec<Tile>>, a: (int, int), b: (int, int))
    requires
        open_at(map, a.0, a.1),
        open_at(map, b.0, b.1),
        is_step(a, b),
    ensures
        connected(map, a, b),
{
    let path = seq![a, b];
    assert(is_path(map, path));
    assert(path[0] == a && path.last() == b);
}

/// Opening more tiles never disconnects anything.
pub proof fn lemma_connected_grows(
    before: Seq<Vec<Tile>>,
    after: Seq<Vec<Tile>>,
    a: (int, int),
    b: (int, int),
)
    requires
        opens_more(before, after),
        connected(before, a, b),
    ensures
        connected(after, a, b),
{
    let p = choose|path: Seq<(int, int)>| #[trigger]
        is_path(before, path) && path[0] == a && path.last() == b;
    assert forall|i: int| 0 <= i < p.len() implies open_at(after, (#[trigger] p[i]).0, p[i].1) by {
        assert(open_at(before, p[i].0, p[i].1));
    }
    assert(is_path(after, p));
}

/// A run of open tiles along a row connects its two ends.
pub proof fn lemma_row_connected(map: Seq<Vec<Tile>>, y: int, x1: int, x2: int)
    requires
        forall|x: int| between(x1, x2, x) ==> open_at(map, x, y),
    ensures
        connected(map, (x1, y), (x2, y)),
    decreases
        if x1 <= x2 { x2 - x1 } else { x1 - x2 },
{
    assert(between(x1, x2, x1));
    assert(between(x1, x2, x2));
    if x1 == x2 {
        lemma_connected_refl(map, (x1, y));
    } else {
        let near = if x1 < x2 { x2 - 1 } else { x2 + 1 };
        assert(between(x1, x2, near));
        assert forall|x: int| between(x1, near, x) implies open_at(map, x, y) by {
            assert(between(x1, x2, x));
        }
        lemma_row_connected(map, y, x1, near);
        lemma_connected_step(map, (near, y), (x2, y));
        lemma_connected_trans(map, (x1, y), (near, y), (x2, y));
    }
}

/// A run of open tiles along a column connects its two ends.
pub proof fn lemma_column_connected(map: Seq<Vec<Tile>>, x: int, y1: int, y2: int)
    requires
        forall|y: int| between(y1, y2, y) ==> open_at(map, x, y),
    ensures
        connected(map, (x, y1), (x, y2)),
    decreases
        if y1 <= y2 { y2 - y1 } else { y1 - y2 },
{
    assert(between(y1, y2, y1));
    assert(between(y1, y2, y2));
    if y1 == y2 {
        lemma_connected_refl(map, (x, y1));
    } else {
        let near = if y1 < y2 { y2 - 1 } else { y2 + 1 };
        assert(between(y1, y2, near));
        assert forall|y: int| between(y1, near, y) implies open_at(map, x, y) by {
            assert(between(y1, y2, y));
        }
        lemma_column_connected(map, x, y1, near);
        lemma_connected_step(map, (x, near), (x, y2));
        lemma_connected_trans(map, (x, y1), (x, near), (x, y2));
    }
}

/// Inside a room whose floor is open, every tile is connected to every
/// other.
pub proof fn lemma_room_connected(map: Seq<Vec<Tile>>, room: Rect, a: (int, int), b: (int, int))
    requires
        forall|x: int, y: int| room.interior(x, y) ==> open_at(map, x, y),
        room.interior(a.0, a.1),
        room.interior(b.0, b.1),
    ensures
        connected(map, a, b),
{
    assert forall|x: int| between(a.0, b.0, x) implies open_at(map, x, a.1) by {
        assert(room.interior(x, a.1));
    }
    lemma_row_connected(map, a.1, a.0, b.0);
    assert forall|y: int| between(a.1, b.1, y) implies open_at(map, b.0, y) by {
        assert(room.interior(b.0, y));
    }
    lemma_column_connected(map, b.0, a.1, b.1);
    lemma_connected_trans(map, a, (b.0, a.1), b);
}

} // verus!
