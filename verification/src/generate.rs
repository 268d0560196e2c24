//! Level generation.
//!
//! A level is cut out of solid rock: candidate rooms are drawn at random,
//! those that overlap an earlier room are thrown away, and each room that
//! is kept is dug out, populated and joined to the room before it by an
//! L-shaped corridor. The player starts in the first room and the stairs
//! lie in the last.

use vstd::prelude::*;
use crate::color::Color;
use crate::constants::{
    MAP_HEIGHT, MAP_WIDTH, MAX_ROOMS, MAX_ROOM_ITEMS, MAX_ROOM_MONSTERS, PLAYER, ROOM_MAX_SIZE,
    ROOM_MIN_SIZE,
};
use crate::map::{
    between, carved, create_h_tunnel, create_room, create_v_tunnel, h_tunnelled, in_map, occupied,
    open_at, same_shape, v_tunnelled, Rect, Tile, TileMap,
};
use crate::object::Object;
use crate::random::{random_bool, random_range};
use crate::reach::{
    all_open_reachable, connected, lemma_column_connected, lemma_connected_grows,
    lemma_connected_trans, lemma_room_connected, lemma_row_connected,
    opens_more,
};
use crate::spawn::{is_room_spawn, place_objects, spawned_into};

verus! {

/// Whether the grid has the dimensions of a level.
pub open spec fn full_size(map: Seq<Vec<Tile>>) -> bool {
    &&& map.len() == MAP_WIDTH
    &&& forall|x: int| 0 <= x < map.len() ==> (#[trigger] map[x])@.len() == MAP_HEIGHT
}

/// Whether every tile is untouched rock or untouched floor.
pub open spec fn pristine(map: Seq<Vec<Tile>>) -> bool {
    forall|x: int, y: int| #[trigger]
        in_map(map, x, y) ==> map[x]@[y] == Tile::spec_wall() || map[x]@[y] == Tile::spec_empty()
}

/// Whether every tile is untouched rock.
pub open spec fn solid(map: Seq<Vec<Tile>>) -> bool {
    forall|x: int, y: int| #[trigger] in_map(map, x, y) ==> map[x]@[y] == Tile::spec_wall()
}

/// Whether `room` is one that generation may draw: of permitted size and
/// with its walls inside the level.
pub open spec fn valid_room(room: Rect) -> bool {
    &&& 0 <= room.x1
    &&& room.x2 < MAP_WIDTH
    &&& 0 <= room.y1
    &&& room.y2 < MAP_HEIGHT
    &&& ROOM_MIN_SIZE <= room.x2 - room.x1 <= ROOM_MAX_SIZE
    &&& ROOM_MIN_SIZE <= room.y2 - room.y1 <= ROOM_MAX_SIZE
}

/// Whether no two of the rooms share a tile, walls included.
pub open spec fn rooms_disjoint(rooms: Seq<Rect>) -> bool {
    forall|i: int, j: int|
        0 <= i < j < rooms.len() ==> !(#[trigger] rooms[i]).overlaps(#[trigger] rooms[j])
}

/// Whether `room` overlaps none of `rooms`.
pub open spec fn fits_among(room: Rect, rooms: Seq<Rect>) -> bool {
    forall|i: int| 0 <= i < rooms.len() ==> !room.overlaps(#[trigger] rooms[i])
}

/// Whether the floor of every room is open.
pub open spec fn rooms_open(map: Seq<Vec<Tile>>, rooms: Seq<Rect>) -> bool {
    forall|i: int, x: int, y: int|
        0 <= i < rooms.len() && (#[trigger] rooms[i]).interior(x, y) ==> #[trigger] open_at(
            map,
            x,
            y,
        )
}

/// Whether `(x, y)` lies on the floor of one of the rooms.
pub open spec fn in_some_room(rooms: Seq<Rect>, x: int, y: int) -> bool {
    exists|i: int| 0 <= i < rooms.len() && (#[trigger] rooms[i]).interior(x, y)
}

/// Whether `(x, y)` lies on the corridor that joins the middle of room
/// `i` to the middle of the room after it, turned as `horizontal_first`
/// says.
pub open spec fn corridor_after(
    rooms: Seq<Rect>,
    i: int,
    horizontal_first: bool,
    x: int,
    y: int,
) -> bool {
    &&& 0 <= i < rooms.len() - 1
    &&& on_corridor(rooms[i].spec_center(), rooms[i + 1].spec_center(), horizontal_first, x, y)
}

/// Whether `(x, y)` lies on a corridor between the middles of two rooms
/// dug one after the other.
pub open spec fn on_some_corridor(rooms: Seq<Rect>, x: int, y: int) -> bool {
    exists|i: int, horizontal_first: bool| #[trigger]
        corridor_after(rooms, i, horizontal_first, x, y)
}

/// Whether everything open is the floor of a room or part of a corridor
/// between two rooms dug one after the other: nothing else was dug.
pub open spec fn only_rooms_and_corridors(map: Seq<Vec<Tile>>, rooms: Seq<Rect>) -> bool {
    forall|x: int, y: int| #[trigger]
        open_at(map, x, y) ==> in_some_room(rooms, x, y) || on_some_corridor(rooms, x, y)
}

/// What generation guarantees of a level and the rooms it was made from:
/// the grid has full size and holds only untouched rock and floor; there is
/// at least one room; the rooms are of permitted size, inside the level and
/// pairwise apart; the floor of every room is open; nothing is open but
/// the floors and the corridors that join each room to the one dug before
/// it; and every open tile can be walked to from the middle of the first
/// room, so that whatever cannot be reached is rock.
pub open spec fn well_generated(map: Seq<Vec<Tile>>, rooms: Seq<Rect>) -> bool {
    &&& full_size(map)
    &&& pristine(map)
    &&& rooms.len() > 0
    &&& forall|i: int| 0 <= i < rooms.len() ==> valid_room(#[trigger] rooms[i])
    &&& rooms_disjoint(rooms)
    &&& rooms_open(map, rooms)
    &&& only_rooms_and_corridors(map, rooms)
    &&& all_open_reachable(map, rooms[0].spec_center())
}

/// Whether `(x, y)` lies on the L-shaped corridor from `from` to `to`,
/// which runs along the row of `from` first if `horizontal_first`, along
/// its column first otherwise.
pub open spec fn on_corridor(
    from: (int, int),
    to: (int, int),
    horizontal_first: bool,
    x: int,
    y: int,
) -> bool {
    if horizontal_first {
        (y == from.1 && between(from.0, to.0, x)) || (x == to.0 && between(from.1, to.1, y))
    } else {
        (x == from.0 && between(from.1, to.1, y)) || (y == to.1 && between(from.0, to.0, x))
    }
}

/// Whether `after` is `before` with the corridor from `from` to `to` dug.
pub open spec fn is_joined(
    before: Seq<Vec<Tile>>,
    after: Seq<Vec<Tile>>,
    from: (int, int),
    to: (int, int),
    horizontal_first: bool,
) -> bool {
    &&& same_shape(before, after)
    &&& forall|x: int, y: int| #[trigger]
        in_map(before, x, y) ==> after[x]@[y] == (if on_corridor(from, to, horizontal_first, x, y) {
            Tile::spec_empty()
        } else {
            before[x]@[y]
        })
}

/// Whether `after` is `before` with the inside of `room` dug out.
pub open spec fn is_carved(before: Seq<Vec<Tile>>, after: Seq<Vec<Tile>>, room: Rect) -> bool {
    &&& same_shape(before, after)
    &&& forall|x: int, y: int| #[trigger]
        in_map(before, x, y) ==> after[x]@[y] == carved(before, room, x, y)
}

/// A level of solid rock.
pub fn wall_map() -> (map: TileMap)
    ensures
        full_size(map@),
        solid(map@),
{
    let mut map: TileMap = Vec::new();
    let mut x: i32 = 0;
    while x < MAP_WIDTH
        invariant
            0 <= x <= MAP_WIDTH,
            map@.len() == x,
            forall|cx: int| 0 <= cx < x ==> (#[trigger] map@[cx])@.len() == MAP_HEIGHT,
            forall|cx: int, cy: int|
                0 <= cx < x && 0 <= cy < MAP_HEIGHT ==> (#[trigger] map@[cx]@[cy])
                    == Tile::spec_wall(),
        decreases MAP_WIDTH - x,
    {
        let mut column: Vec<Tile> = Vec::new();
        let mut y: i32 = 0;
        while y < MAP_HEIGHT
            invariant
                0 <= y <= MAP_HEIGHT,
                column@.len() == y,
                forall|cy: int| 0 <= cy < y ==> (#[trigger] column@[cy]) == Tile::spec_wall(),
            decreases MAP_HEIGHT - y,
        {
            column.push(Tile::wall());
            y += 1;
        }
        map.push(column);
        x += 1;
    }
    map
}

/// Whether `room` overlaps none of the rooms kept so far.
pub fn room_fits(room: &Rect, rooms: &Vec<Rect>) -> (fits: bool)
    ensures
        fits == fits_among(*room, rooms@),
{
    let mut i: usize = 0;
    while i < rooms.len()
        invariant
            i <= rooms@.len(),
            forall|j: int| 0 <= j < i ==> !room.overlaps(#[trigger] rooms@[j]),
        decreases rooms@.len() - i,
    {
        if room.intersects_with(&rooms[i]) {
            return false;
        }
        i += 1;
    }
    true
}

/// Digs the L-shaped corridor from `from` to `to`: along the row of `from`
/// and then the column of `to` if `horizontal_first`, along the column of
/// `from` and then the row of `to` otherwise.
pub fn connect_rooms(from: (i32, i32), to: (i32, i32), horizontal_first: bool, map: &mut TileMap)
    requires
        from.0 < i32::MAX,
        from.1 < i32::MAX,
        to.0 < i32::MAX,
        to.1 < i32::MAX,
        forall|x: int, y: int|
            on_corridor(
                (from.0 as int, from.1 as int),
                (to.0 as int, to.1 as int),
                horizontal_first,
                x,
                y,
            ) ==> in_map(old(map)@, x, y),
    ensures
        is_joined(
            old(map)@,
            final(map)@,
            (from.0 as int, from.1 as int),
            (to.0 as int, to.1 as int),
            horizontal_first,
        ),
{
    let ghost f = (from.0 as int, from.1 as int);
    let ghost t = (to.0 as int, to.1 as int);
    if horizontal_first {
        assert forall|x: int| between(f.0, t.0, x) implies in_map(map@, x, f.1) by {
            assert(on_corridor(f, t, horizontal_first, x, f.1));
        }
        create_h_tunnel(from.0, to.0, from.1, map);
        let ghost mid = map@;
        assert forall|y: int| between(f.1, t.1, y) implies in_map(map@, t.0, y) by {
            assert(on_corridor(f, t, horizontal_first, t.0, y));
            assert(in_map(old(map)@, t.0, y));
        }
        create_v_tunnel(from.1, to.1, to.0, map);
        assert forall|x: int, y: int| #[trigger] in_map(old(map)@, x, y) implies map@[x]@[y] == (
        if on_corridor(f, t, horizontal_first, x, y) {
            Tile::spec_empty()
        } else {
            old(map)@[x]@[y]
        }) by {
            assert(in_map(mid, x, y));
            assert(map@[x]@[y] == v_tunnelled(mid, f.1, t.1, t.0, x, y));
            assert(mid[x]@[y] == h_tunnelled(old(map)@, f.0, t.0, f.1, x, y));
        }
    } else {
        assert forall|y: int| between(f.1, t.1, y) implies in_map(map@, f.0, y) by {
            assert(on_corridor(f, t, horizontal_first, f.0, y));
        }
        create_v_tunnel(from.1, to.1, from.0, map);
        let ghost mid = map@;
        assert forall|x: int| between(f.0, t.0, x) implies in_map(map@, x, t.1) by {
            assert(on_corridor(f, t, horizontal_first, x, t.1));
            assert(in_map(old(map)@, x, t.1));
        }
        create_h_tunnel(from.0, to.0, to.1, map);
        assert forall|x: int, y: int| #[trigger] in_map(old(map)@, x, y) implies map@[x]@[y] == (
        if on_corridor(f, t, horizontal_first, x, y) {
            Tile::spec_empty()
        } else {
            old(map)@[x]@[y]
        }) by {
            assert(in_map(mid, x, y));
            assert(map@[x]@[y] == h_tunnelled(mid, f.0, t.0, t.1, x, y));
            assert(mid[x]@[y] == v_tunnelled(old(map)@, f.1, t.1, f.0, x, y));
        }
    }
}

/// The middle of a room that generation may draw lies on its floor.
pub proof fn lemma_center_inside(room: Rect)
    requires
        valid_room(room),
    ensures
        room.interior(room.spec_center().0, room.spec_center().1),
{
}

/// The floor of a room that generation may draw lies inside a level of
/// full size.
proof fn lemma_floor_in_map(map: Seq<Vec<Tile>>, room: Rect, x: int, y: int)
    requires
        full_size(map),
        valid_room(room),
        room.interior(x, y),
    ensures
        in_map(map, x, y),
{
    assert(0 <= x < map.len());
    assert(map[x]@.len() == MAP_HEIGHT);
}

/// Every tile of an open corridor is connected to the corridor's start.
proof fn lemma_corridor_connected(
    map: Seq<Vec<Tile>>,
    from: (int, int),
    to: (int, int),
    horizontal_first: bool,
    x: int,
    y: int,
)
    requires
        forall|cx: int, cy: int|
            on_corridor(from, to, horizontal_first, cx, cy) ==> open_at(map, cx, cy),
        on_corridor(from, to, horizontal_first, x, y),
    ensures
        connected(map, from, (x, y)),
{
    if horizontal_first {
        if y == from.1 && between(from.0, to.0, x) {
            assert forall|cx: int| between(from.0, x, cx) implies open_at(map, cx, y) by {
                assert(on_corridor(from, to, horizontal_first, cx, y));
            }
            lemma_row_connected(map, y, from.0, x);
        } else {
            assert forall|cx: int| between(from.0, to.0, cx) implies open_at(map, cx, from.1) by {
                assert(on_corridor(from, to, horizontal_first, cx, from.1));
            }
            lemma_row_connected(map, from.1, from.0, to.0);
            assert forall|cy: int| between(from.1, y, cy) implies open_at(map, to.0, cy) by {
                assert(on_corridor(from, to, horizontal_first, to.0, cy));
            }
            lemma_column_connected(map, to.0, from.1, y);
            lemma_connected_trans(map, from, (to.0, from.1), (x, y));
        }
    } else {
        if x == from.0 && between(from.1, to.1, y) {
            assert forall|cy: int| between(from.1, y, cy) implies open_at(map, x, cy) by {
                assert(on_corridor(from, to, horizontal_first, x, cy));
            }
            lemma_column_connected(map, x, from.1, y);
        } else {
            assert forall|cy: int| between(from.1, to.1, cy) implies open_at(map, from.0, cy) by {
                assert(on_corridor(from, to, horizontal_first, from.0, cy));
            }
            lemma_column_connected(map, from.0, from.1, to.1);
            assert forall|cx: int| between(from.0, x, cx) implies open_at(map, cx, to.1) by {
                assert(on_corridor(from, to, horizontal_first, cx, to.1));
            }
            lemma_row_connected(map, to.1, from.0, x);
            lemma_connected_trans(map, from, (from.0, to.1), (x, y));
        }
    }
}

/// Digging the first room out of solid rock gives a well generated level.
proof fn lemma_first_room(before: Seq<Vec<Tile>>, after: Seq<Vec<Tile>>, room: Rect)
    requires
        full_size(before),
        solid(before),
        is_carved(before, after, room),
        valid_room(room),
    ensures
        well_generated(after, seq![room]),
{
    let rooms = seq![room];
    let center = room.spec_center();
    lemma_center_inside(room);
    assert forall|x: int| 0 <= x < after.len() implies (#[trigger] after[x])@.len()
        == MAP_HEIGHT by {
        assert(before[x]@.len() == MAP_HEIGHT);
    }
    assert forall|x: int, y: int| room.interior(x, y) implies open_at(after, x, y) by {
        lemma_floor_in_map(before, room, x, y);
        assert(in_map(before, x, y));
        assert(after[x]@[y] == carved(before, room, x, y));
    }
    assert forall|x: int, y: int| #[trigger] in_map(after, x, y) implies after[x]@[y]
        == Tile::spec_wall() || after[x]@[y] == Tile::spec_empty() by {
        assert(before[x]@.len() == after[x]@.len());
        assert(in_map(before, x, y));
        assert(after[x]@[y] == carved(before, room, x, y));
    }
    assert forall|x: int, y: int| #[trigger] open_at(after, x, y) implies connected(
        after,
        center,
        (x, y),
    ) by {
        assert(before[x]@.len() == after[x]@.len());
        assert(in_map(before, x, y));
        assert(after[x]@[y] == carved(before, room, x, y));
        assert(room.interior(x, y));
        lemma_room_connected(after, room, center, (x, y));
    }
    assert(rooms[0] == room);
    assert forall|x: int, y: int| #[trigger] open_at(after, x, y) implies in_some_room(
        rooms,
        x,
        y,
    ) || on_some_corridor(rooms, x, y) by {
        assert(before[x]@.len() == after[x]@.len());
        assert(in_map(before, x, y));
        assert(after[x]@[y] == carved(before, room, x, y));
        assert(rooms[0].interior(x, y));
    }
}

/// Digging a further room that overlaps none of the earlier ones and
/// joining it to the last of them keeps the level well generated.
proof fn lemma_next_room(
    m0: Seq<Vec<Tile>>,
    m1: Seq<Vec<Tile>>,
    m3: Seq<Vec<Tile>>,
    rooms: Seq<Rect>,
    room: Rect,
    horizontal_first: bool,
)
    requires
        well_generated(m0, rooms),
        valid_room(room),
        fits_among(room, rooms),
        is_carved(m0, m1, room),
        is_joined(m1, m3, rooms.last().spec_center(), room.spec_center(), horizontal_first),
    ensures
        well_generated(m3, rooms.push(room)),
        opens_more(m0, m3),
{
    let start = rooms[0].spec_center();
    let prev = rooms.last().spec_center();
    let new = room.spec_center();
    let all = rooms.push(room);
    lemma_center_inside(room);
    lemma_center_inside(rooms.last());
    assert(valid_room(rooms.last()));

    assert forall|x: int| 0 <= x < m3.len() implies (#[trigger] m3[x])@.len() == MAP_HEIGHT by {
        assert(m0[x]@.len() == MAP_HEIGHT);
        assert(m1[x]@.len() == m0[x]@.len());
        assert(m3[x]@.len() == m1[x]@.len());
    }
    assert(full_size(m1)) by {
        assert forall|x: int| 0 <= x < m1.len() implies (#[trigger] m1[x])@.len()
            == MAP_HEIGHT by {
            assert(m0[x]@.len() == MAP_HEIGHT);
        }
    }
    // every tile keeps its place through both steps
    assert forall|x: int, y: int| in_map(m3, x, y) implies in_map(m0, x, y) && in_map(m1, x, y) by {
        assert(m0[x]@.len() == MAP_HEIGHT);
        assert(m1[x]@.len() == MAP_HEIGHT);
    }
    assert forall|x: int, y: int| in_map(m0, x, y) implies in_map(m1, x, y) && in_map(m3, x, y) by {
        assert(m1[x]@.len() == MAP_HEIGHT);
        assert(m3[x]@.len() == MAP_HEIGHT);
    }
    // the corridor is open
    assert forall|cx: int, cy: int|
        on_corridor(prev, new, horizontal_first, cx, cy) implies open_at(m3, cx, cy) by {
        assert(0 <= cx < MAP_WIDTH && 0 <= cy < MAP_HEIGHT);
        assert(m1[cx]@.len() == MAP_HEIGHT);
        assert(in_map(m1, cx, cy));
        assert(m3[cx]@.len() == MAP_HEIGHT);
    }
    // the new floor is open
    assert forall|x: int, y: int| room.interior(x, y) implies open_at(m3, x, y) by {
        lemma_floor_in_map(m0, room, x, y);
        assert(in_map(m0, x, y));
        assert(m1[x]@[y] == carved(m0, room, x, y));
        assert(in_map(m1, x, y));
    }
    // nothing that was open is closed
    assert forall|x: int, y: int| #[trigger] open_at(m0, x, y) implies open_at(m3, x, y) by {
        assert(in_map(m0, x, y));
        assert(m1[x]@[y] == carved(m0, room, x, y));
        assert(in_map(m1, x, y));
    }
    assert(opens_more(m0, m3));
    // the end of the last room is reached from the start
    assert(connected(m3, start, prev)) by {
        assert(rooms.last() == rooms[rooms.len() - 1]);
        assert(rooms[rooms.len() - 1].interior(prev.0, prev.1));
        assert(open_at(m0, prev.0, prev.1));
        lemma_connected_grows(m0, m3, start, prev);
    }
    assert(connected(m3, start, new)) by {
        assert(on_corridor(prev, new, horizontal_first, new.0, new.1));
        lemma_corridor_connected(m3, prev, new, horizontal_first, new.0, new.1);
        lemma_connected_trans(m3, start, prev, new);
    }
    assert forall|x: int, y: int| #[trigger] open_at(m3, x, y) implies connected(
        m3,
        start,
        (x, y),
    ) by {
        assert(in_map(m1, x, y));
        assert(in_map(m0, x, y));
        if on_corridor(prev, new, horizontal_first, x, y) {
            lemma_corridor_connected(m3, prev, new, horizontal_first, x, y);
            lemma_connected_trans(m3, start, prev, (x, y));
        } else if room.interior(x, y) {
            lemma_room_connected(m3, room, new, (x, y));
            lemma_connected_trans(m3, start, new, (x, y));
        } else {
            assert(m3[x]@[y] == m1[x]@[y]);
            assert(m1[x]@[y] == carved(m0, room, x, y));
            assert(open_at(m0, x, y));
            lemma_connected_grows(m0, m3, start, (x, y));
        }
    }
    assert forall|x: int, y: int| #[trigger] in_map(m3, x, y) implies m3[x]@[y]
        == Tile::spec_wall() || m3[x]@[y] == Tile::spec_empty() by {
        assert(in_map(m1, x, y));
        assert(in_map(m0, x, y));
        assert(m1[x]@[y] == carved(m0, room, x, y));
    }
    assert forall|i: int| 0 <= i < all.len() implies valid_room(#[trigger] all[i]) by {
        if i < rooms.len() {
            assert(all[i] == rooms[i]);
        }
    }
    assert forall|i: int, j: int| 0 <= i < j < all.len() implies !(#[trigger] all[i]).overlaps(
        #[trigger] all[j],
    ) by {
        assert(all[i] == rooms[i]);
        if j < rooms.len() {
            assert(all[j] == rooms[j]);
        } else {
            assert(!room.overlaps(rooms[i]));
        }
    }
    assert forall|i: int, x: int, y: int|
        0 <= i < all.len() && (#[trigger] all[i]).interior(x, y) implies #[trigger] open_at(
        m3,
        x,
        y,
    ) by {
        if i < rooms.len() {
            assert(all[i] == rooms[i]);
            assert(rooms[i].interior(x, y));
            assert(open_at(m0, x, y));
        }
    }
    assert(all[0] == rooms[0]);
    assert forall|x: int, y: int| #[trigger] open_at(m3, x, y) implies in_some_room(all, x, y)
        || on_some_corridor(all, x, y) by {
        assert(in_map(m1, x, y));
        assert(in_map(m0, x, y));
        let last = rooms.len() - 1;
        if on_corridor(prev, new, horizontal_first, x, y) {
            assert(all[last] == rooms.last());
            assert(all[last + 1] == room);
            assert(corridor_after(all, last, horizontal_first, x, y));
        } else if room.interior(x, y) {
            assert(all[rooms.len() as int].interior(x, y));
        } else {
            assert(m3[x]@[y] == m1[x]@[y]);
            assert(m1[x]@[y] == carved(m0, room, x, y));
            assert(open_at(m0, x, y));
            if in_some_room(rooms, x, y) {
                let i = choose|i: int| 0 <= i < rooms.len() && (#[trigger] rooms[i]).interior(x, y);
                assert(all[i] == rooms[i]);
            } else {
                let (i, turn) = choose|i: int, turn: bool| #[trigger]
                    corridor_after(rooms, i, turn, x, y);
                assert(all[i] == rooms[i]);
                assert(all[i + 1] == rooms[i + 1]);
                assert(corridor_after(all, i, turn, x, y));
            }
        }
    }
}

/// Whether `object` is a new monster or floor item on the floor of one of
/// the rooms.
pub open spec fn spawned_in_some(object: Object, rooms: Seq<Rect>) -> bool {
    exists|r: int| 0 <= r < rooms.len() && is_room_spawn(object, #[trigger] rooms[r])
}

/// Whether `object` is the stairs at `(x, y)`: a lifeless, always visible
/// actor that is in nobody's way.
pub open spec fn is_stairs(object: Object, x: int, y: int) -> bool {
    &&& object.x == x
    &&& object.y == y
    &&& object.glyph == '<'
    &&& object.color == Color::White
    &&& object.name@ == "stairs"@
    &&& !object.blocks
    &&& !object.alive
    &&& object.always_visible
    &&& object.level == 1
    &&& object.fighter is None
    &&& object.ai is None
    &&& object.item is None
    &&& object.equipment is None
}

/// Whether nothing that was spawned stands on the tile of an earlier spawn
/// that occupies it: of the actors after the first, none shares its tile
/// with an earlier one that is in the way.
pub open spec fn spawns_apart(objects: Seq<Object>) -> bool {
    forall|i: int, j: int|
        1 <= i < j < objects.len() && (#[trigger] objects[i]).blocks ==> !objects[i].is_at(
            (#[trigger] objects[j]).x as int,
            objects[j].y as int,
        )
}

/// What generation guarantees of the registry, given the player it started
/// from and the rooms it kept: the player comes first, moved to the middle
/// of the first room and otherwise unchanged; the stairs come last, in the
/// middle of the last room; everything in between was spawned on the floor
/// of one of the rooms, no more per room than the bounds on monsters and
/// items allow, and never on a tile that an earlier spawn occupies.
pub open spec fn well_populated(objects: Seq<Object>, player: Object, rooms: Seq<Rect>) -> bool {
    &&& rooms.len() > 0
    &&& objects.len() >= 2
    &&& objects[0] == (Object {
        x: rooms[0].spec_center().0 as i32,
        y: rooms[0].spec_center().1 as i32,
        ..player
    })
    &&& is_stairs(objects.last(), rooms.last().spec_center().0, rooms.last().spec_center().1)
    &&& forall|i: int| 1 <= i < objects.len() - 1 ==> spawned_in_some(#[trigger] objects[i], rooms)
    &&& objects.len() <= 2 + rooms.len() * (MAX_ROOM_MONSTERS + MAX_ROOM_ITEMS)
    &&& spawns_apart(objects.drop_last())
}

/// Draws a candidate room: width and height between the permitted bounds,
/// position such that the room lies inside the level.
fn random_room() -> (room: Rect)
    ensures
        valid_room(room),
{
    let w = random_range(ROOM_MIN_SIZE, ROOM_MAX_SIZE + 1);
    let h = random_range(ROOM_MIN_SIZE, ROOM_MAX_SIZE + 1);
    let x = random_range(0, MAP_WIDTH - w);
    let y = random_range(0, MAP_HEIGHT - h);
    Rect::new(x, y, w, h)
}

/// Generates a level and also returns the rooms it was made from, in the
/// order they were dug.
///
/// Only the player is kept of the registry; everything else is discarded
/// before the level is built. Up to [`MAX_ROOMS`] candidate rooms are drawn
/// and each one that overlaps no earlier room is dug out, populated and
/// joined to the room before it. The first candidate never overlaps
/// anything, so there is always at least one room.
pub fn make_map_with_rooms(objects: &mut Vec<Object>) -> (level: (TileMap, Vec<Rect>))
    requires
        old(objects)@.len() >= 1,
    ensures
        well_generated(level.0@, level.1@),
        level.1@.len() <= MAX_ROOMS,
        well_populated(final(objects)@, old(objects)@[0], level.1@),
{
    let mut map = wall_map();
    objects.truncate(1);
    let mut rooms: Vec<Rect> = Vec::new();
    let ghost player = old(objects)@[0];

    let mut attempt: i32 = 0;
    while attempt < MAX_ROOMS
        invariant
            0 <= attempt <= MAX_ROOMS,
            rooms@.len() <= attempt,
            attempt > 0 ==> rooms@.len() > 0,
            full_size(map@),
            player == old(objects)@[0],
            objects@.len() >= 1,
            rooms@.len() == 0 ==> solid(map@) && objects@[0] == player,
            rooms@.len() > 0 ==> well_generated(map@, rooms@),
            rooms@.len() > 0 ==> objects@[0] == (Object {
                x: rooms@[0].spec_center().0 as i32,
                y: rooms@[0].spec_center().1 as i32,
                ..player
            }),
            forall|i: int| 1 <= i < objects@.len() ==> spawned_in_some(#[trigger] objects@[i], rooms@),
            objects@.len() <= 1 + rooms@.len() * (MAX_ROOM_MONSTERS + MAX_ROOM_ITEMS),
            spawns_apart(objects@),
        decreases MAX_ROOMS - attempt,
    {
        let new_room = random_room();
        let failed = !room_fits(&new_room, &rooms);

        if !failed {
            let ghost m0 = map@;
            let ghost before = objects@;
            proof {
                assert forall|x: int, y: int| new_room.interior(x, y) implies in_map(
                    map@,
                    x,
                    y,
                ) by {
                    lemma_floor_in_map(map@, new_room, x, y);
                }
                lemma_center_inside(new_room);
            }
            create_room(new_room, &mut map);
            let ghost m1 = map@;
            assert(is_carved(m0, m1, new_room));
            proof {
                assert forall|x: int, y: int| new_room.interior(x, y) implies in_map(
                    m1,
                    x,
                    y,
                ) by {
                    lemma_floor_in_map(m0, new_room, x, y);
                }
            }
            place_objects(new_room, &map, objects);
            let ghost placed = objects@;
            assert(placed[0] == before[0]) by {
                assert(placed.take(before.len() as int)[0] == before[0]);
            }
            proof {
                lemma_spawns_stay_apart(before, placed, new_room, m1);
            }

            let (new_x, new_y) = new_room.center();

            if rooms.is_empty() {
                objects[PLAYER].set_pos(new_x, new_y);
                proof {
                    lemma_first_room(m0, m1, new_room);
                    assert(rooms@.push(new_room) =~= seq![new_room]);
                }
            } else {
                let last = rooms.len() - 1;
                assert(valid_room(rooms@[last as int]));
                assert(rooms@.last() == rooms@[last as int]);
                let (prev_x, prev_y) = rooms[last].center();
                let horizontal_first = random_bool();
                proof {
                    lemma_center_inside(rooms@[last as int]);
                    assert forall|x: int, y: int|
                        on_corridor(
                            (prev_x as int, prev_y as int),
                            (new_x as int, new_y as int),
                            horizontal_first,
                            x,
                            y,
                        ) implies in_map(m1, x, y) by {
                        assert(0 <= x < MAP_WIDTH && 0 <= y < MAP_HEIGHT);
                        assert(m0[x]@.len() == MAP_HEIGHT);
                        assert(m1[x]@.len() == m0[x]@.len());
                    }
                }
                connect_rooms((prev_x, prev_y), (new_x, new_y), horizontal_first, &mut map);
                proof {
                    lemma_next_room(m0, m1, map@, rooms@, new_room, horizontal_first);
                }
            }

            let ghost old_rooms = rooms@;
            rooms.push(new_room);
            proof {
                assert((old_rooms.len() + 1) * (MAX_ROOM_MONSTERS + MAX_ROOM_ITEMS)
                    == old_rooms.len() * (MAX_ROOM_MONSTERS + MAX_ROOM_ITEMS) + (MAX_ROOM_MONSTERS
                    + MAX_ROOM_ITEMS)) by (nonlinear_arith);
                assert(rooms@[0] == if old_rooms.len() == 0 { new_room } else { old_rooms[0] });
                assert forall|i: int| 1 <= i < objects@.len() implies spawned_in_some(
                    #[trigger] objects@[i],
                    rooms@,
                ) by {
                    assert(objects@[i] == placed[i]);
                    if i < before.len() {
                        assert(placed.take(before.len() as int)[i] == before[i]);
                        let r = choose|r: int|
                            0 <= r < old_rooms.len() && is_room_spawn(
                                before[i],
                                #[trigger] old_rooms[r],
                            );
                        assert(rooms@[r] == old_rooms[r]);
                    } else {
                        assert(is_room_spawn(placed[i], new_room));
                        assert(rooms@[old_rooms.len() as int] == new_room);
                    }
                }
            }
        }
        attempt += 1;
    }

    let last = rooms.len() - 1;
    assert(valid_room(rooms@[last as int]));
    let (last_room_x, last_room_y) = rooms[last].center();
    let mut stairs = Object::new(last_room_x, last_room_y, '<', Color::White, "stairs", false);
    stairs.always_visible = true;
    let ghost before = objects@;
    objects.push(stairs);
    proof {
        assert(rooms@.last() == rooms@[last as int]);
        assert forall|i: int| 1 <= i < objects@.len() - 1 implies spawned_in_some(
            #[trigger] objects@[i],
            rooms@,
        ) by {
            assert(objects@[i] == before[i]);
        }
        assert(objects@.drop_last() =~= before);
    }

    (map, rooms)
}

/// Generates a level: a grid of full size in which every open tile can be
/// walked to from the player, who stands in the middle of the first room.
///
/// Only the player is kept of the registry; monsters, items and the stairs
/// of the new level are appended to it.
pub fn make_map(objects: &mut Vec<Object>) -> (map: TileMap)
    requires
        old(objects)@.len() >= 1,
    ensures
        exists|rooms: Seq<Rect>|
            {
                &&& #[trigger] well_generated(map@, rooms)
                &&& rooms.len() <= MAX_ROOMS
                &&& well_populated(final(objects)@, old(objects)@[0], rooms)
            },
{
    let (map, rooms) = make_map_with_rooms(objects);
    map
}

/// In a well generated level every floor tile of every room is open and
/// can be walked to from the middle of the first room, where the player
/// starts.
pub proof fn lemma_rooms_reachable(
    map: Seq<Vec<Tile>>,
    rooms: Seq<Rect>,
    room: int,
    x: int,
    y: int,
)
    requires
        well_generated(map, rooms),
        0 <= room < rooms.len(),
        rooms[room].interior(x, y),
    ensures
        open_at(map, x, y),
        connected(map, rooms[0].spec_center(), (x, y)),
{
    assert(open_at(map, x, y));
}

/// In a well generated level no two rooms share a tile.
pub proof fn lemma_rooms_apart(map: Seq<Vec<Tile>>, rooms: Seq<Rect>, first: int, second: int)
    requires
        well_generated(map, rooms),
        0 <= first < rooms.len(),
        0 <= second < rooms.len(),
        first != second,
    ensures
        !rooms[first].overlaps(rooms[second]),
{
    if first < second {
        assert(!rooms[first].overlaps(rooms[second]));
    } else {
        assert(!rooms[second].overlaps(rooms[first]));
    }
}

/// In a well generated level whatever cannot be reached from the first
/// room is rock.
pub proof fn lemma_unreachable_is_wall(map: Seq<Vec<Tile>>, rooms: Seq<Rect>, x: int, y: int)
    requires
        well_generated(map, rooms),
        in_map(map, x, y),
        !connected(map, rooms[0].spec_center(), (x, y)),
    ensures
        map[x]@[y] == Tile::spec_wall(),
{
    assert(!open_at(map, x, y));
}

/// Populating a room keeps the spawns apart: whatever is added lands on a
/// tile that nothing earlier occupies.
proof fn lemma_spawns_stay_apart(
    before: Seq<Object>,
    after: Seq<Object>,
    room: Rect,
    map: Seq<Vec<Tile>>,
)
    requires
        spawns_apart(before),
        before.len() <= after.len(),
        after.take(before.len() as int) == before,
        spawned_into(after, before.len() as int, room, map),
    ensures
        spawns_apart(after),
{
    assert forall|i: int, j: int|
        1 <= i < j < after.len() && (#[trigger] after[i]).blocks implies !after[i].is_at(
        (#[trigger] after[j]).x as int,
        after[j].y as int,
    ) by {
        if j < before.len() {
            assert(after.take(before.len() as int)[i] == after[i]);
            assert(after.take(before.len() as int)[j] == after[j]);
        } else {
            assert(is_room_spawn(after[j], room));
            assert(!occupied(after.take(j), after[j].x as int, after[j].y as int));
            assert(after.take(j)[i] == after[i]);
        }
    }
}

/// In a well generated level the outermost tiles are rock.
pub proof fn lemma_border_is_wall(map: Seq<Vec<Tile>>, rooms: Seq<Rect>, x: int, y: int)
    requires
        well_generated(map, rooms),
        in_map(map, x, y),
        x == 0 || x == MAP_WIDTH - 1 || y == 0 || y == MAP_HEIGHT - 1,
    ensures
        map[x]@[y] == Tile::spec_wall(),
{
    if open_at(map, x, y) {
        if in_some_room(rooms, x, y) {
            let i = choose|i: int| 0 <= i < rooms.len() && (#[trigger] rooms[i]).interior(x, y);
            assert(valid_room(rooms[i]));
        } else {
            let (i, turn) = choose|i: int, turn: bool| #[trigger]
                corridor_after(rooms, i, turn, x, y);
            assert(valid_room(rooms[i]));
            assert(valid_room(rooms[i + 1]));
            lemma_center_inside(rooms[i]);
            lemma_center_inside(rooms[i + 1]);
        }
    }
}

} // verus!
