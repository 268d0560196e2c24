//! The tile grid of a level and the rectangles rooms are cut from.

use vstd::prelude::*;
use crate::object::Object;

verus! {

/// The grid of a level: `map[x][y]` is the tile in column `x`, row `y`.
pub type TileMap = Vec<Vec<Tile>>;

/// One cell of the grid.
#[derive(Clone, Copy, Debug, PartialEq, Eq, Structural)]
pub struct Tile {
    /// Nothing can enter the tile.
    pub blocked: bool,
    /// The player has seen the tile at some point.
    pub explored: bool,
    /// The tile stops the line of sight.
    pub block_sight: bool,
}

impl Tile {
    /// Open floor.
    pub fn empty() -> (tile: Tile)
        ensures
            tile == Tile::spec_empty(),
    {
        Tile { blocked: false, explored: false, block_sight: false }
    }

    /// Solid rock.
    pub fn wall() -> (tile: Tile)
        ensures
            tile == Tile::spec_wall(),
    {
        Tile { blocked: true, explored: false, block_sight: true }
    }

    /// Open floor that nobody has seen yet.
    pub open spec fn spec_empty() -> Tile {
        Tile { blocked: false, explored: false, block_sight: false }
    }

    /// Solid rock that nobody has seen yet.
    pub open spec fn spec_wall() -> Tile {
        Tile { blocked: true, explored: false, block_sight: true }
    }
}

/// A rectangle on the grid. A room's walls lie on the rectangle's edge, its
/// floor strictly inside.
#[derive(Clone, Copy, Debug, PartialEq, Eq, Structural)]
pub struct Rect {
    pub x1: i32,
    pub y1: i32,
    pub x2: i32,
    pub y2: i32,
}

/// Division by two that rounds towards zero, as machine division does.
pub open spec fn half(n: int) -> int {
    if n >= 0 {
        n / 2
    } else {
        -((-n) / 2)
    }
}

impl Rect {
    /// The rectangle with corner `(x, y)`, width `w` and height `h`.
    pub fn new(x: i32, y: i32, w: i32, h: i32) -> (rect: Rect)
        requires
            i32::MIN <= x + w <= i32::MAX,
            i32::MIN <= y + h <= i32::MAX,
        ensures
            rect == (Rect { x1: x, y1: y, x2: (x + w) as i32, y2: (y + h) as i32 }),
    {
        Rect { x1: x, y1: y, x2: x + w, y2: y + h }
    }

    /// The tile in the middle of the rectangle.
    pub open spec fn spec_center(self) -> (int, int) {
        (half(self.x1 + self.x2), half(self.y1 + self.y2))
    }

    /// The tile in the middle of the rectangle.
    pub fn center(&self) -> (c: (i32, i32))
        requires
            i32::MIN <= self.x1 + self.x2 <= i32::MAX,
            i32::MIN <= self.y1 + self.y2 <= i32::MAX,
        ensures
            (c.0 as int, c.1 as int) == self.spec_center(),
    {
        let center_x = (self.x1 + self.x2) / 2;
        let center_y = (self.y1 + self.y2) / 2;
        (center_x, center_y)
    }

    /// Whether the two rectangles share a tile, edges included.
    pub open spec fn overlaps(self, other: Rect) -> bool {
        self.x1 <= other.x2 && self.x2 >= other.x1 && self.y1 <= other.y2 && self.y2 >= other.y1
    }

    /// Whether the two rectangles share a tile, edges included.
    pub fn intersects_with(&self, other: &Rect) -> (b: bool)
        ensures
            b == self.overlaps(*other),
    {
        (self.x1 <= other.x2) && (self.x2 >= other.x1) && (self.y1 <= other.y2) && (self.y2
            >= other.y1)
    }

    /// Whether the tile lies strictly inside the rectangle.
    pub open spec fn interior(self, x: int, y: int) -> bool {
        self.x1 < x < self.x2 && self.y1 < y < self.y2
    }
}

/// Whether `(x, y)` names a tile of the grid.
pub open spec fn in_map(map: Seq<Vec<Tile>>, x: int, y: int) -> bool {
    0 <= x < map.len() && 0 <= y < map[x]@.len()
}

/// Whether `(x, y)` names a tile of the grid that can be entered.
pub open spec fn open_at(map: Seq<Vec<Tile>>, x: int, y: int) -> bool {
    in_map(map, x, y) && !map[x]@[y].blocked
}

/// Two grids have the same shape.
pub open spec fn same_shape(a: Seq<Vec<Tile>>, b: Seq<Vec<Tile>>) -> bool {
    &&& a.len() == b.len()
    &&& forall|x: int| 0 <= x < a.len() ==> (#[trigger] a[x])@.len() == b[x]@.len()
}

/// Whether some actor that occupies its tile stands on `(x, y)`.
pub open spec fn occupied(objects: Seq<Object>, x: int, y: int) -> bool {
    exists|i: int| 0 <= i < objects.len() && (#[trigger] objects[i]).blocks && objects[i].is_at(x, y)
}

/// Whether nothing can enter `(x, y)`: the tile is rock or an actor is in
/// the way.
pub open spec fn blocked_at(map: Seq<Vec<Tile>>, objects: Seq<Object>, x: int, y: int) -> bool {
    map[x]@[y].blocked || occupied(objects, x, y)
}

/// Whether nothing can enter `(x, y)`: the tile is rock or an actor that
/// occupies its tile stands there.
pub fn is_blocked(x: i32, y: i32, map: &TileMap, objects: &[Object]) -> (b: bool)
    requires
        in_map(map@, x as int, y as int),
    ensures
        b == blocked_at(map@, objects@, x as int, y as int),
{
    if map[x as usize][y as usize].blocked {
        return true;
    }
    let mut i: usize = 0;
    while i < objects.len()
        invariant
            i <= objects@.len(),
            forall|j: int| 0 <= j < i ==> !((#[trigger] objects@[j]).blocks && objects@[j].is_at(x as int, y as int)),
        decreases objects@.len() - i,
    {
        if objects[i].blocks && objects[i].x == x && objects[i].y == y {
            return true;
        }
        i += 1;
    }
    false
}

/// What the grid holds at `(x, y)` once the inside of `room` is dug out.
pub open spec fn carved(old_map: Seq<Vec<Tile>>, room: Rect, x: int, y: int) -> Tile {
    if room.interior(x, y) {
        Tile::spec_empty()
    } else {
        old_map[x]@[y]
    }
}

/// Turns every tile strictly inside `room` into open floor.
pub fn create_room(room: Rect, map: &mut TileMap)
    requires
        room.x1 < i32::MAX,
        room.y1 < i32::MAX,
        forall|x: int, y: int| room.interior(x, y) ==> in_map(old(map)@, x, y),
    ensures
        same_shape(old(map)@, final(map)@),
        forall|x: int, y: int|
            in_map(old(map)@, x, y) ==> final(map)@[x]@[y] == carved(old(map)@, room, x, y),
{
    let mut x: i32 = room.x1 + 1;
    while x < room.x2
        invariant
            room.x1 < x,
            room.y1 < i32::MAX,
            forall|x: int, y: int| room.interior(x, y) ==> in_map(old(map)@, x, y),
            same_shape(old(map)@, map@),
            forall|cx: int, cy: int|
                in_map(old(map)@, cx, cy) ==> map@[cx]@[cy] == (if cx < x {
                    carved(old(map)@, room, cx, cy)
                } else {
                    old(map)@[cx]@[cy]
                }),
        decreases room.x2 - x,
    {
        let mut y: i32 = room.y1 + 1;
        while y < room.y2
            invariant
                room.x1 < x < room.x2,
                room.y1 < y,
                forall|x: int, y: int| room.interior(x, y) ==> in_map(old(map)@, x, y),
                same_shape(old(map)@, map@),
                forall|cx: int, cy: int|
                    in_map(old(map)@, cx, cy) ==> map@[cx]@[cy] == (if cx < x || (cx == x && cy
                        < y) {
                        carved(old(map)@, room, cx, cy)
                    } else {
                        old(map)@[cx]@[cy]
                    }),
            decreases room.y2 - y,
        {
            assert(room.interior(x as int, y as int));
            map[x as usize][y as usize] = Tile::empty();
            y += 1;
        }
        x += 1;
    }
}

/// Whether `v` lies between `a` and `b`, whichever of the two is smaller.
pub open spec fn between(a: int, b: int, v: int) -> bool {
    (a <= v <= b) || (b <= v <= a)
}

/// What the grid holds at `(cx, cy)` once a corridor is dug along row `y`
/// from column `x1` to column `x2`.
pub open spec fn h_tunnelled(old_map: Seq<Vec<Tile>>, x1: int, x2: int, y: int, cx: int, cy: int)
    -> Tile {
    if cy == y && between(x1, x2, cx) {
        Tile::spec_empty()
    } else {
        old_map[cx]@[cy]
    }
}

/// What the grid holds at `(cx, cy)` once a corridor is dug along column
/// `x` from row `y1` to row `y2`.
pub open spec fn v_tunnelled(old_map: Seq<Vec<Tile>>, y1: int, y2: int, x: int, cx: int, cy: int)
    -> Tile {
    if cx == x && between(y1, y2, cy) {
        Tile::spec_empty()
    } else {
        old_map[cx]@[cy]
    }
}

/// Digs a corridor along row `y` between columns `x1` and `x2`, both ends
/// included.
pub fn create_h_tunnel(x1: i32, x2: i32, y: i32, map: &mut TileMap)
    requires
        x1 < i32::MAX,
        x2 < i32::MAX,
        forall|x: int| between(x1 as int, x2 as int, x) ==> in_map(old(map)@, x, y as int),
    ensures
        same_shape(old(map)@, final(map)@),
        forall|cx: int, cy: int|
            in_map(old(map)@, cx, cy) ==> final(map)@[cx]@[cy] == h_tunnelled(
                old(map)@,
                x1 as int,
                x2 as int,
                y as int,
                cx,
                cy,
            ),
{
    let low = if x1 < x2 {
        x1
    } else {
        x2
    };
    let high = if x1 < x2 {
        x2
    } else {
        x1
    };
    let mut x: i32 = low;
    while x < high + 1
        invariant
            low <= x <= high + 1,
            high < i32::MAX,
            low == if x1 < x2 { x1 } else { x2 },
            high == if x1 < x2 { x2 } else { x1 },
            forall|x: int| between(x1 as int, x2 as int, x) ==> in_map(old(map)@, x, y as int),
            same_shape(old(map)@, map@),
            forall|cx: int, cy: int|
                in_map(old(map)@, cx, cy) ==> map@[cx]@[cy] == (if cx < x {
                    h_tunnelled(old(map)@, x1 as int, x2 as int, y as int, cx, cy)
                } else {
                    old(map)@[cx]@[cy]
                }),
        decreases high + 1 - x,
    {
        assert(between(x1 as int, x2 as int, x as int));
        map[x as usize][y as usize] = Tile::empty();
        x += 1;
    }
}

/// Digs a corridor along column `x` between rows `y1` and `y2`, both ends
/// included.
pub fn create_v_tunnel(y1: i32, y2: i32, x: i32, map: &mut TileMap)
    requires
        y1 < i32::MAX,
        y2 < i32::MAX,
        forall|y: int| between(y1 as int, y2 as int, y) ==> in_map(old(map)@, x as int, y),
    ensures
        same_shape(old(map)@, final(map)@),
        forall|cx: int, cy: int|
            in_map(old(map)@, cx, cy) ==> final(map)@[cx]@[cy] == v_tunnelled(
                old(map)@,
                y1 as int,
                y2 as int,
                x as int,
                cx,
                cy,
            ),
{
    let low = if y1 < y2 {
        y1
    } else {
        y2
    };
    let high = if y1 < y2 {
        y2
    } else {
        y1
    };
    let mut y: i32 = low;
    while y < high + 1
        invariant
            low <= y <= high + 1,
            high < i32::MAX,
            low == if y1 < y2 { y1 } else { y2 },
            high == if y1 < y2 { y2 } else { y1 },
            forall|y: int| between(y1 as int, y2 as int, y) ==> in_map(old(map)@, x as int, y),
            same_shape(old(map)@, map@),
            forall|cx: int, cy: int|
                in_map(old(map)@, cx, cy) ==> map@[cx]@[cy] == (if cx == x && cy < y {
                    v_tunnelled(old(map)@, y1 as int, y2 as int, x as int, cx, cy)
                } else {
                    old(map)@[cx]@[cy]
                }),
        decreases high + 1 - y,
    {
        assert(between(y1 as int, y2 as int, y as int));
        map[x as usize][y as usize] = Tile::empty();
        y += 1;
    }
}

/// Whether `(x, y)` names a tile of the grid.
pub fn tile_exists(map: &TileMap, x: i64, y: i64) -> (exists: bool)
    ensures
        exists == in_map(map@, x as int, y as int),
{
    if x < 0 || y < 0 {
        return false;
    }
    if x as u64 >= map.len() as u64 {
        return false;
    }
    (y as u64) < map[x as usize].len() as u64
}

} // verus!
