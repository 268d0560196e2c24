//! What the screens need computed: which menu entry a key picks, which
//! tiles have been explored, and what is drawn in which order. Drawing
//! itself is the caller's business.

use vstd::prelude::*;
use crate::constants::{MAP_HEIGHT, MAP_WIDTH, MAX_MENU_OPTIONS};
use crate::game::Fov;
use crate::map::{in_map, same_shape, Tile, TileMap};
use crate::object::Object;

verus! {

/// The position in the alphabet of a letter of either case, counted from
/// zero; nothing for any other character.
pub open spec fn letter_index(key: char) -> Option<int> {
    if 'a' <= key && key <= 'z' {
        Some(key as int - 'a' as int)
    } else if 'A' <= key && key <= 'Z' {
        Some(key as int - 'A' as int)
    } else {
        None
    }
}

/// The menu entry a key picks: entries are lettered from `a`, and a letter
/// of either case picks its entry if the menu has that many. Any other key
/// picks nothing.
pub open spec fn picked(key: char, option_count: int) -> Option<usize> {
    match letter_index(key) {
        Some(index) => if index < option_count {
            Some(index as usize)
        } else {
            None
        },
        None => None,
    }
}

/// The menu entry a key picks; see [`picked`].
pub fn menu(key: char, option_count: usize) -> (choice: Option<usize>)
    requires
        option_count <= MAX_MENU_OPTIONS,
    ensures
        choice == picked(key, option_count as int),
{
    let code = key as u32;
    let index: u32 = if 'a' as u32 <= code && code <= 'z' as u32 {
        code - 'a' as u32
    } else if 'A' as u32 <= code && code <= 'Z' as u32 {
        code - 'A' as u32
    } else {
        return None;
    };
    if (index as usize) < option_count {
        Some(index as usize)
    } else {
        None
    }
}

/// The entry picked from the inventory menu: the menu's pick, unless the
/// inventory is empty and the menu only said so.
pub fn inventory_menu(inventory_len: usize, key: char) -> (choice: Option<usize>)
    requires
        inventory_len <= MAX_MENU_OPTIONS,
    ensures
        choice == (if inventory_len > 0 {
            picked(key, inventory_len as int)
        } else {
            None
        }),
{
    let option_count = if inventory_len == 0 {
        1
    } else {
        inventory_len
    };
    let inventory_index = menu(key, option_count);
    if inventory_len > 0 {
        inventory_index
    } else {
        None
    }
}

/// The tile once everything in view has been seen: an explored tile stays
/// explored, a tile in view becomes explored, and nothing else changes.
pub open spec fn seen(tile: Tile, visible: bool) -> Tile {
    Tile { explored: tile.explored || visible, ..tile }
}

/// Marks every tile of the level that is in view as explored. Exploration
/// is never taken back.
pub fn mark_explored(map: &mut TileMap, fov: &Fov)
    requires
        forall|x: int, y: int|
            0 <= x < MAP_WIDTH && 0 <= y < MAP_HEIGHT ==> in_map(old(map)@, x, y),
    ensures
        same_shape(old(map)@, final(map)@),
        forall|x: int, y: int|
            in_map(old(map)@, x, y) ==> (#[trigger] final(map)@[x]@[y]) == (if x < MAP_WIDTH && y
                < MAP_HEIGHT {
                seen(old(map)@[x]@[y], fov.sees(x, y))
            } else {
                old(map)@[x]@[y]
            }),
        forall|x: int, y: int|
            in_map(old(map)@, x, y) && old(map)@[x]@[y].explored ==> (
            #[trigger] final(map)@[x]@[y]).explored,
{
    let mut y: i32 = 0;
    while y < MAP_HEIGHT
        invariant
            0 <= y <= MAP_HEIGHT,
            same_shape(old(map)@, map@),
            forall|x: int, y: int|
                0 <= x < MAP_WIDTH && 0 <= y < MAP_HEIGHT ==> in_map(old(map)@, x, y),
            forall|cx: int, cy: int|
                in_map(old(map)@, cx, cy) ==> (#[trigger] map@[cx]@[cy]) == (if cx < MAP_WIDTH
                    && cy < y {
                    seen(old(map)@[cx]@[cy], fov.sees(cx, cy))
                } else {
                    old(map)@[cx]@[cy]
                }),
        decreases MAP_HEIGHT - y,
    {
        let mut x: i32 = 0;
        while x < MAP_WIDTH
            invariant
                0 <= x <= MAP_WIDTH,
                0 <= y < MAP_HEIGHT,
                same_shape(old(map)@, map@),
                forall|x: int, y: int|
                    0 <= x < MAP_WIDTH && 0 <= y < MAP_HEIGHT ==> in_map(old(map)@, x, y),
                forall|cx: int, cy: int|
                    in_map(old(map)@, cx, cy) ==> (#[trigger] map@[cx]@[cy]) == (if cx
                        < MAP_WIDTH && (cy < y || (cy == y && cx < x)) {
                        seen(old(map)@[cx]@[cy], fov.sees(cx, cy))
                    } else {
                        old(map)@[cx]@[cy]
                    }),
            decreases MAP_WIDTH - x,
        {
            assert(in_map(old(map)@, x as int, y as int));
            let visible = fov.is_in_fov(x, y);
            if visible {
                map[x as usize][y as usize].explored = true;
            }
            x += 1;
        }
        y += 1;
    }
}

/// Whether the actor is drawn: it stands on a tile in view, or it is one
/// that stays on screen and its tile has been explored.
pub open spec fn is_drawn(object: Object, fov: Fov, map: Seq<Vec<Tile>>) -> bool {
    fov.sees(object.x as int, object.y as int) || (object.always_visible && map[object.x as int]@[object.y as int].explored)
}

/// The indices below `upto` of the actors that are drawn and do, or do
/// not, occupy their tile, in rising order.
pub open spec fn drawn_layer(
    objects: Seq<Object>,
    fov: Fov,
    map: Seq<Vec<Tile>>,
    blocks: bool,
    upto: int,
) -> Seq<usize>
    decreases upto,
{
    if upto <= 0 {
        Seq::empty()
    } else {
        let rest = drawn_layer(objects, fov, map, blocks, upto - 1);
        if is_drawn(objects[upto - 1], fov, map) && objects[upto - 1].blocks == blocks {
            rest.push((upto - 1) as usize)
        } else {
            rest
        }
    }
}

/// What the grid's size demands of working out what is drawn: an actor
/// that stays on screen and is out of view stands on a tile of the grid.
pub open spec fn drawable(objects: Seq<Object>, fov: Fov, map: Seq<Vec<Tile>>) -> bool {
    forall|i: int|
        0 <= i < objects.len() && (#[trigger] objects[i]).always_visible && !fov.sees(
            objects[i].x as int,
            objects[i].y as int,
        ) ==> in_map(map, objects[i].x as int, objects[i].y as int)
}

/// Computes [`is_drawn`].
fn drawn(object: &Object, fov: &Fov, map: &TileMap) -> (visible: bool)
    requires
        object.always_visible && !fov.sees(object.x as int, object.y as int) ==> in_map(
            map@,
            object.x as int,
            object.y as int,
        ),
    ensures
        visible == is_drawn(*object, *fov, map@),
{
    fov.is_in_fov(object.x, object.y) || (object.always_visible
        && map[object.x as usize][object.y as usize].explored)
}

/// The actors to draw, by index, in drawing order: those that are in
/// nobody's way first, so that whoever occupies a tile is drawn on top of
/// what lies there; within each group in the order of the registry.
pub fn draw_order(objects: &[Object], fov: &Fov, map: &TileMap) -> (order: Vec<usize>)
    requires
        drawable(objects@, *fov, map@),
    ensures
        order@ == drawn_layer(objects@, *fov, map@, false, objects@.len() as int) + drawn_layer(
            objects@,
            *fov,
            map@,
            true,
            objects@.len() as int,
        ),
{
    let mut order: Vec<usize> = Vec::new();
    let mut i: usize = 0;
    while i < objects.len()
        invariant
            i <= objects@.len(),
            drawable(objects@, *fov, map@),
            order@ == drawn_layer(objects@, *fov, map@, false, i as int),
        decreases objects@.len() - i,
    {
        if drawn(&objects[i], fov, map) && !objects[i].blocks {
            order.push(i);
        }
        i += 1;
    }
    let ghost below = order@;
    let mut i: usize = 0;
    assert(below + Seq::<usize>::empty() =~= below);
    while i < objects.len()
        invariant
            i <= objects@.len(),
            drawable(objects@, *fov, map@),
            below == drawn_layer(objects@, *fov, map@, false, objects@.len() as int),
            order@ == below + drawn_layer(objects@, *fov, map@, true, i as int),
        decreases objects@.len() - i,
    {
        if drawn(&objects[i], fov, map) && objects[i].blocks {
            order.push(i);
            assert(order@ =~= below + drawn_layer(objects@, *fov, map@, true, i as int + 1));
        }
        i += 1;
    }
    order
}

/// The indices below `upto` of the actors that stand on `(x, y)` and are
/// in view, in rising order.
pub open spec fn seen_at(objects: Seq<Object>, fov: Fov, x: int, y: int, upto: int) -> Seq<usize>
    decreases upto,
{
    if upto <= 0 {
        Seq::empty()
    } else {
        let rest = seen_at(objects, fov, x, y, upto - 1);
        if objects[upto - 1].is_at(x, y) && fov.sees(x, y) {
            rest.push((upto - 1) as usize)
        } else {
            rest
        }
    }
}

/// The actors under the cursor at `(x, y)` that the player can see, by
/// index, in the order of the registry.
pub fn get_names_under_mouse(x: i32, y: i32, objects: &[Object], fov: &Fov) -> (found: Vec<usize>)
    ensures
        found@ == seen_at(objects@, *fov, x as int, y as int, objects@.len() as int),
{
    let mut found: Vec<usize> = Vec::new();
    let mut i: usize = 0;
    while i < objects.len()
        invariant
            i <= objects@.len(),
            found@ == seen_at(objects@, *fov, x as int, y as int, i as int),
        decreases objects@.len() - i,
    {
        if objects[i].x == x && objects[i].y == y && fov.is_in_fov(objects[i].x, objects[i].y) {
            found.push(i);
        }
        i += 1;
    }
    found
}

} // verus!
