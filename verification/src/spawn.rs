//! Populating a room with monsters and items.

use vstd::prelude::*;
use crate::color::Color;
use crate::constants::{MAX_ROOM_ITEMS, MAX_ROOM_MONSTERS};
use crate::map::{blocked_at, in_map, is_blocked, Rect, Tile, TileMap};
use crate::object::{Ai, DeathCallback, Equipment, Fighter, Item, Object, Slot};
use crate::random::{
    choice_weights, random_range, total_weight, valid_weights, weighted_choice_new, weighted_choice_sample,
};

verus! {

/// The monsters a level can hold.
#[derive(Clone, Copy, Debug, PartialEq, Eq, Structural)]
pub enum MonsterKind {
    Orc,
    Troll,
}

impl MonsterKind {
    /// The combat statistics a monster of this kind starts with.
    pub open spec fn fighter(self) -> Fighter {
        match self {
            MonsterKind::Orc => Fighter {
                base_max_hp: 20,
                hp: 20,
                base_defense: 0,
                base_power: 4,
                xp: 35,
                on_death: DeathCallback::Monster,
            },
            MonsterKind::Troll => Fighter {
                base_max_hp: 30,
                hp: 30,
                base_defense: 2,
                base_power: 8,
                xp: 100,
                on_death: DeathCallback::Monster,
            },
        }
    }

    pub open spec fn glyph(self) -> char {
        match self {
            MonsterKind::Orc => 'o',
            MonsterKind::Troll => 'T',
        }
    }

    pub open spec fn color(self) -> Color {
        match self {
            MonsterKind::Orc => Color::DesaturatedGreen,
            MonsterKind::Troll => Color::DarkerGreen,
        }
    }

    pub open spec fn name(self) -> Seq<char> {
        match self {
            MonsterKind::Orc => "orc"@,
            MonsterKind::Troll => "troll"@,
        }
    }
}

/// Whether `object` is a freshly made monster of the given kind at
/// `(x, y)`: alive, in the way, fighting and hunting.
pub open spec fn is_new_monster(object: Object, kind: MonsterKind, x: int, y: int) -> bool {
    &&& object.x == x
    &&& object.y == y
    &&& object.glyph == kind.glyph()
    &&& object.color == kind.color()
    &&& object.name@ == kind.name()
    &&& object.blocks
    &&& object.alive
    &&& !object.always_visible
    &&& object.level == 1
    &&& object.fighter == Some(kind.fighter())
    &&& object.ai == Some(Ai::Basic)
    &&& object.item is None
    &&& object.equipment is None
}

/// Makes a monster of the given kind at `(x, y)`.
pub fn create_monster(kind: MonsterKind, x: i32, y: i32) -> (monster: Object)
    ensures
        is_new_monster(monster, kind, x as int, y as int),
{
    let mut monster = match kind {
        MonsterKind::Orc => {
            let mut orc = Object::new(x, y, 'o', Color::DesaturatedGreen, "orc", true);
            orc.fighter = Some(
                Fighter {
                    base_max_hp: 20,
                    hp: 20,
                    base_defense: 0,
                    base_power: 4,
                    xp: 35,
                    on_death: DeathCallback::Monster,
                },
            );
            orc.ai = Some(Ai::Basic);
            orc
        },
        MonsterKind::Troll => {
            let mut troll = Object::new(x, y, 'T', Color::DarkerGreen, "troll", true);
            troll.fighter = Some(
                Fighter {
                    base_max_hp: 30,
                    hp: 30,
                    base_defense: 2,
                    base_power: 8,
                    xp: 100,
                    on_death: DeathCallback::Monster,
                },
            );
            troll.ai = Some(Ai::Basic);
            troll
        },
    };
    monster.alive = true;
    monster
}

/// How an item of each kind looks when it lies on the floor of a generated
/// level.
pub open spec fn floor_glyph(item: Item) -> char {
    match item {
        Item::Heal => '!',
        Item::Sword => '/',
        Item::Shield => '[',
        _ => '#',
    }
}

pub open spec fn floor_color(item: Item) -> Color {
    match item {
        Item::Heal => Color::Violet,
        Item::Sword => Color::Sky,
        Item::Shield => Color::DarkerOrange,
        _ => Color::LightYellow,
    }
}

/// The name of an item of each kind.
pub open spec fn item_name(item: Item) -> Seq<char> {
    match item {
        Item::Heal => "healing potion"@,
        Item::Lightning => "scroll of lightning bolt"@,
        Item::Fireball => "scroll of fireball"@,
        Item::Confuse => "scroll of confusion"@,
        Item::Blink => "scroll of blink"@,
        Item::Freeze => "scroll of freeze"@,
        Item::Sword => "sword"@,
        Item::Shield => "shield"@,
    }
}

/// The equipment component of an item found on the floor, if it is one
/// that can be worn.
pub open spec fn floor_equipment(item: Item) -> Option<Equipment> {
    match item {
        Item::Sword => Some(
            Equipment {
                slot: Slot::RightHand,
                equipped: false,
                max_hp_bonus: 0,
                defense_bonus: 0,
                power_bonus: 3,
            },
        ),
        Item::Shield => Some(
            Equipment {
                slot: Slot::LeftHand,
                equipped: false,
                max_hp_bonus: 0,
                defense_bonus: 1,
                power_bonus: 0,
            },
        ),
        _ => None,
    }
}

/// Whether `object` is a freshly made floor item of the given kind at
/// `(x, y)`.
pub open spec fn is_new_floor_item(object: Object, item: Item, x: int, y: int) -> bool {
    &&& object.x == x
    &&& object.y == y
    &&& object.glyph == floor_glyph(item)
    &&& object.color == floor_color(item)
    &&& object.name@ == item_name(item)
    &&& !object.blocks
    &&& !object.alive
    &&& object.always_visible
    &&& object.level == 1
    &&& object.fighter is None
    &&& object.ai is None
    &&& object.item == Some(item)
    &&& object.equipment == floor_equipment(item)
}

/// Makes an item of the given kind lying at `(x, y)`, as level generation
/// places it.
pub fn create_floor_item(kind: Item, x: i32, y: i32) -> (item: Object)
    ensures
        is_new_floor_item(item, kind, x as int, y as int),
{
    let mut item = match kind {
        Item::Heal => {
            let mut object = Object::new(x, y, '!', Color::Violet, "healing potion", false);
            object.item = Some(Item::Heal);
            object
        },
        Item::Lightning => {
            let mut object = Object::new(
                x,
                y,
                '#',
                Color::LightYellow,
                "scroll of lightning bolt",
                false,
            );
            object.item = Some(Item::Lightning);
            object
        },
        Item::Fireball => {
            let mut object = Object::new(x, y, '#', Color::LightYellow, "scroll of fireball", false);
            object.item = Some(Item::Fireball);
            object
        },
        Item::Confuse => {
            let mut object = Object::new(
                x,
                y,
                '#',
                Color::LightYellow,
                "scroll of confusion",
                false,
            );
            object.item = Some(Item::Confuse);
            object
        },
        Item::Blink => {
            let mut object = Object::new(x, y, '#', Color::LightYellow, "scroll of blink", false);
            object.item = Some(Item::Blink);
            object
        },
        Item::Freeze => {
            let mut object = Object::new(x, y, '#', Color::LightYellow, "scroll of freeze", false);
            object.item = Some(Item::Freeze);
            object
        },
        Item::Sword => {
            let mut object = Object::new(x, y, '/', Color::Sky, "sword", false);
            object.item = Some(Item::Sword);
            object.equipment = Some(
                Equipment {
                    slot: Slot::RightHand,
                    equipped: false,
                    max_hp_bonus: 0,
                    defense_bonus: 0,
                    power_bonus: 3,
                },
            );
            object
        },
        Item::Shield => {
            let mut object = Object::new(x, y, '[', Color::DarkerOrange, "shield", false);
            object.item = Some(Item::Shield);
            object.equipment = Some(
                Equipment {
                    slot: Slot::LeftHand,
                    equipped: false,
                    max_hp_bonus: 0,
                    defense_bonus: 1,
                    power_bonus: 0,
                },
            );
            object
        },
    };
    item.always_visible = true;
    item
}

/// The weights monsters are drawn with: orcs four times as often as trolls.
pub open spec fn monster_weights() -> Seq<i32> {
    seq![4i32, 1i32]
}

/// The monster kind that stands at `index` of the monster table.
pub open spec fn monster_at(index: int) -> MonsterKind {
    if index == 0 {
        MonsterKind::Orc
    } else {
        MonsterKind::Troll
    }
}

/// Looks up the monster table, which lists the orc before the troll.
pub fn monster_choice(index: usize) -> (kind: MonsterKind)
    requires
        index < monster_weights().len(),
    ensures
        kind == monster_at(index as int),
{
    if index == 0 {
        MonsterKind::Orc
    } else {
        MonsterKind::Troll
    }
}

/// The weights items are drawn with, in the order of the item table.
pub open spec fn item_weights() -> Seq<i32> {
    seq![4i32, 3i32, 3i32, 3i32, 3i32, 3i32, 2i32, 2i32]
}

/// The item kind that stands at `index` of the item table.
pub open spec fn item_at(index: int) -> Item {
    if index == 0 {
        Item::Heal
    } else if index == 1 {
        Item::Lightning
    } else if index == 2 {
        Item::Fireball
    } else if index == 3 {
        Item::Confuse
    } else if index == 4 {
        Item::Blink
    } else if index == 5 {
        Item::Freeze
    } else if index == 6 {
        Item::Sword
    } else {
        Item::Shield
    }
}

/// Looks up the item table: healing potion, lightning, fireball, confusion,
/// blink, freeze, sword, shield.
pub fn item_choice(index: usize) -> (item: Item)
    requires
        index < item_weights().len(),
    ensures
        item == item_at(index as int),
{
    if index == 0 {
        Item::Heal
    } else if index == 1 {
        Item::Lightning
    } else if index == 2 {
        Item::Fireball
    } else if index == 3 {
        Item::Confuse
    } else if index == 4 {
        Item::Blink
    } else if index == 5 {
        Item::Freeze
    } else if index == 6 {
        Item::Sword
    } else {
        Item::Shield
    }
}

/// Adds `object` to the registry unless its tile is blocked; a blocked
/// spawn is dropped, not retried.
pub fn spawn(object: Object, map: &TileMap, objects: &mut Vec<Object>) -> (placed: bool)
    requires
        in_map(map@, object.x as int, object.y as int),
    ensures
        placed == !blocked_at(map@, old(objects)@, object.x as int, object.y as int),
        placed ==> final(objects)@ == old(objects)@.push(object),
        !placed ==> final(objects)@ == old(objects)@,
{
    if !is_blocked(object.x, object.y, map, objects.as_slice()) {
        objects.push(object);
        true
    } else {
        false
    }
}

/// Whether `object` is something level generation puts into `room`: a new
/// monster or a new floor item on a tile strictly inside the room.
pub open spec fn is_room_spawn(object: Object, room: Rect) -> bool {
    &&& room.interior(object.x as int, object.y as int)
    &&& is_some_monster(object) || is_some_floor_item(object)
}

/// Whether `object` is a new monster of some kind, wherever it stands.
pub open spec fn is_some_monster(object: Object) -> bool {
    exists|kind: MonsterKind| is_new_monster(object, kind, object.x as int, object.y as int)
}

/// Whether `object` is a new floor item of some kind, wherever it lies.
pub open spec fn is_some_floor_item(object: Object) -> bool {
    exists|item: Item| is_new_floor_item(object, item, object.x as int, object.y as int)
}

/// Whether the actors from index `from` up to `split` are new monsters and
/// those from `split` on are new floor items.
pub open spec fn monsters_then_items(objects: Seq<Object>, from: int, split: int) -> bool {
    &&& from <= split <= objects.len()
    &&& forall|i: int| from <= i < split ==> is_some_monster(#[trigger] objects[i])
    &&& forall|i: int| split <= i < objects.len() ==> is_some_floor_item(#[trigger] objects[i])
}

/// Appending a weight adds it to the total.
proof fn lemma_total_weight_push(weights: Seq<i32>, weight: i32)
    ensures
        total_weight(weights.push(weight)) == total_weight(weights) + weight,
{
    assert(weights.push(weight).drop_last() =~= weights);
}

/// The monster table can be drawn from.
proof fn lemma_monster_weights_valid()
    ensures
        valid_weights(monster_weights()),
{
    let empty = Seq::<i32>::empty();
    lemma_total_weight_push(empty, 4);
    lemma_total_weight_push(empty.push(4), 1);
    assert(monster_weights() =~= empty.push(4).push(1));
}

/// The item table can be drawn from.
proof fn lemma_item_weights_valid()
    ensures
        valid_weights(item_weights()),
{
    let s0 = Seq::<i32>::empty();
    let s1 = s0.push(4);
    let s2 = s1.push(3);
    let s3 = s2.push(3);
    let s4 = s3.push(3);
    let s5 = s4.push(3);
    let s6 = s5.push(3);
    let s7 = s6.push(2);
    let s8 = s7.push(2);
    lemma_total_weight_push(s0, 4);
    lemma_total_weight_push(s1, 3);
    lemma_total_weight_push(s2, 3);
    lemma_total_weight_push(s3, 3);
    lemma_total_weight_push(s4, 3);
    lemma_total_weight_push(s5, 3);
    lemma_total_weight_push(s6, 2);
    lemma_total_weight_push(s7, 2);
    assert(item_weights() =~= s8);
}

/// Whether the actors from index `from` on were each put on a tile strictly
/// inside `room` that was free when they arrived, and are new monsters or
/// new floor items.
pub open spec fn spawned_into(objects: Seq<Object>, from: int, room: Rect, map: Seq<Vec<Tile>>)
    -> bool {
    forall|i: int|
        from <= i < objects.len() ==> {
            &&& is_room_spawn(#[trigger] objects[i], room)
            &&& !blocked_at(map, objects.take(i), objects[i].x as int, objects[i].y as int)
        }
}

/// Populates `room`: draws how many monsters and how many items to try,
/// and for each draws a tile strictly inside the room and a kind from the
/// weighted table, and spawns it there unless the tile is blocked. A draw
/// that lands on a blocked tile is skipped, so the counts are upper
/// bounds.
///
/// Whatever the draws, the actors already in the registry stay as they are
/// and everything appended is a new monster or a new floor item inside the
/// room, on a tile that was free when it was placed; the monsters come
/// before the items.
pub fn place_objects(room: Rect, map: &TileMap, objects: &mut Vec<Object>)
    requires
        room.x1 + 1 < room.x2,
        room.y1 + 1 < room.y2,
        forall|x: int, y: int| room.interior(x, y) ==> in_map(map@, x, y),
    ensures
        old(objects)@.len() <= final(objects)@.len() <= old(objects)@.len() + MAX_ROOM_MONSTERS
            + MAX_ROOM_ITEMS,
        final(objects)@.take(old(objects)@.len() as int) == old(objects)@,
        spawned_into(final(objects)@, old(objects)@.len() as int, room, map@),
        exists|split: int|
            {
                &&& #[trigger] monsters_then_items(
                    final(objects)@,
                    old(objects)@.len() as int,
                    split,
                )
                &&& split <= old(objects)@.len() + MAX_ROOM_MONSTERS
                &&& final(objects)@.len() <= split + MAX_ROOM_ITEMS
            },
{
    let num_monsters = random_range(0, MAX_ROOM_MONSTERS + 1);
    let num_items = random_range(0, MAX_ROOM_ITEMS + 1);

    let monster_table: Vec<i32> = vec![4, 1];
    let item_table: Vec<i32> = vec![4, 3, 3, 3, 3, 3, 2, 2];
    proof {
        lemma_monster_weights_valid();
        lemma_item_weights_valid();
        assert(monster_table@ =~= monster_weights());
        assert(item_table@ =~= item_weights());
    }
    let monster_dist = weighted_choice_new(monster_table.as_slice()).unwrap();
    let item_dist = weighted_choice_new(item_table.as_slice()).unwrap();

    let ghost start = objects@.len() as int;
    assert(objects@.take(start) =~= objects@);

    let mut tried: i32 = 0;
    while tried < num_monsters
        invariant
            0 <= tried <= num_monsters <= MAX_ROOM_MONSTERS,
            room.x1 + 1 < room.x2,
            room.y1 + 1 < room.y2,
            forall|x: int, y: int| room.interior(x, y) ==> in_map(map@, x, y),
            choice_weights(monster_dist) == monster_weights(),
            start == old(objects)@.len(),
            start <= objects@.len() <= start + tried,
            objects@.take(start) == old(objects)@,
            spawned_into(objects@, start, room, map@),
            monsters_then_items(objects@, start, objects@.len() as int),
        decreases num_monsters - tried,
    {
        let x = random_range(room.x1 + 1, room.x2);
        let y = random_range(room.y1 + 1, room.y2);
        assert(room.interior(x as int, y as int));

        let kind = monster_choice(weighted_choice_sample(&monster_dist));
        let monster = create_monster(kind, x, y);
        let ghost before = objects@;
        if spawn(monster, map, objects) {
            proof {
                lemma_push_keeps_spawned(before, monster, start, room, map@);
                assert forall|i: int| start <= i < objects@.len() implies is_some_monster(
                    #[trigger] objects@[i],
                ) by {
                    if i < before.len() {
                        assert(objects@[i] == before[i]);
                    }
                }
            }
        }
        tried += 1;
    }

    let ghost after_monsters = objects@.len() as int;
    let mut tried: i32 = 0;
    while tried < num_items
        invariant
            0 <= tried <= num_items <= MAX_ROOM_ITEMS,
            room.x1 + 1 < room.x2,
            room.y1 + 1 < room.y2,
            forall|x: int, y: int| room.interior(x, y) ==> in_map(map@, x, y),
            choice_weights(item_dist) == item_weights(),
            start == old(objects)@.len(),
            start <= after_monsters <= start + MAX_ROOM_MONSTERS,
            after_monsters <= objects@.len() <= after_monsters + tried,
            objects@.take(start) == old(objects)@,
            spawned_into(objects@, start, room, map@),
            monsters_then_items(objects@, start, after_monsters),
        decreases num_items - tried,
    {
        let x = random_range(room.x1 + 1, room.x2);
        let y = random_range(room.y1 + 1, room.y2);
        assert(room.interior(x as int, y as int));

        let kind = item_choice(weighted_choice_sample(&item_dist));
        let item = create_floor_item(kind, x, y);
        let ghost before = objects@;
        if spawn(item, map, objects) {
            proof {
                lemma_push_keeps_spawned(before, item, start, room, map@);
                assert forall|i: int| start <= i < after_monsters implies is_some_monster(
                    #[trigger] objects@[i],
                ) by {
                    assert(objects@[i] == before[i]);
                }
                assert forall|i: int| after_monsters <= i < objects@.len() implies is_some_floor_item(
                    #[trigger] objects@[i],
                ) by {
                    if i < before.len() {
                        assert(objects@[i] == before[i]);
                    }
                }
            }
        }
        tried += 1;
    }
}

/// Appending one more spawn on a free tile keeps [`spawned_into`].
proof fn lemma_push_keeps_spawned(
    before: Seq<Object>,
    added: Object,
    from: int,
    room: Rect,
    map: Seq<Vec<Tile>>,
)
    requires
        0 <= from <= before.len(),
        spawned_into(before, from, room, map),
        is_room_spawn(added, room),
        !blocked_at(map, before, added.x as int, added.y as int),
    ensures
        spawned_into(before.push(added), from, room, map),
        before.push(added).take(from) == before.take(from),
{
    let after = before.push(added);
    assert(after.take(from) =~= before.take(from));
    assert forall|i: int| from <= i < after.len() implies {
        &&& is_room_spawn(#[trigger] after[i], room)
        &&& !blocked_at(map, after.take(i), after[i].x as int, after[i].y as int)
    } by {
        if i < before.len() {
            assert(after[i] == before[i]);
            assert(after.take(i) =~= before.take(i));
        } else {
            assert(after[i] == added);
            assert(after.take(i) =~= before);
        }
    }
}

} // verus!
