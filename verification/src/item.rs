//! Items: making them, carrying them, and using them.
//!
//! Using an item dispatches on its kind to an effect. Effects that need a
//! target take it as an argument; choosing it is an exchange with the user
//! that this module only judges, one input at a time (see
//! [`target_tile`] and [`target_monster`]).

use vstd::prelude::*;
use crate::color::Color;
use crate::combat::{fits_i32, heal, is_i32, max_hp, stat_fits, total_stat, Stat};
use crate::constants::{
    BLINK_RADIUS, CONFUSE_NUM_TURNS, CONFUSE_RANGE, FIREBALL_DAMAGE, FIREBALL_RADIUS,
    FREEZE_NUM_TURNS, FREEZE_RANGE, HEAL_AMOUNT, LIGHTNING_DAMAGE, LIGHTNING_RANGE, MAP_HEIGHT,
    MAP_WIDTH, PLAYER,
};
use crate::game::{Fov, Game};
use crate::map::{blocked_at, in_map, is_blocked, tile_exists, Tile};
use crate::messages::Message;
use crate::object::{dist_sq, Ai, Equipment, Item, Object, Slot};
use crate::spawn::item_name;
use crate::targeting::{is_within_range, within_range};

verus! {

/// How the use of an item ended.
#[derive(Clone, Copy, Debug, PartialEq, Eq, Structural)]
pub enum UseResult {
    /// The item did its work and is gone.
    UsedUp,
    /// Nothing happened; the item is kept.
    Cancelled,
    /// The item did its work and is kept, as equipment is when it is put on
    /// or taken off.
    UsedAndKept,
}

/// The equipment component of an item made by [`create_item`], if it is
/// one that can be worn.
pub open spec fn created_equipment(item: Item) -> Option<Equipment> {
    match item {
        Item::Sword => Some(
            Equipment {
                slot: Slot::RightHand,
                equipped: false,
                max_hp_bonus: 0,
                defense_bonus: 0,
                power_bonus: 1000,
            },
        ),
        Item::Shield => Some(
            Equipment {
                slot: Slot::LeftHand,
                equipped: false,
                max_hp_bonus: 0,
                defense_bonus: 1000,
                power_bonus: 0,
            },
        ),
        _ => None,
    }
}

/// How an item made by [`create_item`] looks.
pub open spec fn created_glyph(item: Item) -> char {
    match item {
        Item::Sword => '/',
        Item::Shield => '/',
        _ => '#',
    }
}

pub open spec fn created_color(item: Item) -> Color {
    match item {
        Item::Sword => Color::Sky,
        Item::Shield => Color::DarkerOrange,
        _ => Color::LightYellow,
    }
}

/// Whether `object` is an item of the given kind at `(x, y)` as
/// [`create_item`] makes it.
pub open spec fn is_created_item(object: Object, item: Item, x: int, y: int) -> bool {
    &&& object.x == x
    &&& object.y == y
    &&& object.glyph == created_glyph(item)
    &&& object.color == created_color(item)
    &&& object.name@ == item_name(item)
    &&& !object.blocks
    &&& !object.alive
    &&& !object.always_visible
    &&& object.level == 1
    &&& object.fighter is None
    &&& object.ai is None
    &&& object.item == Some(item)
    &&& object.equipment == created_equipment(item)
}

/// Makes an item of the given kind lying at `(x, y)`. Swords and shields
/// made this way are far stronger than those found in a level.
pub fn create_item(item_type: Item, x: i32, y: i32) -> (object: Object)
    ensures
        is_created_item(object, item_type, x as int, y as int),
{
    match item_type {
        Item::Heal => {
            let mut object = Object::new(x, y, '#', Color::LightYellow, "healing potion", false);
            object.item = Some(Item::Heal);
            object
        },
        Item::Lightning => {
            let mut object = Object::new(
                x,
                y,
                '#',
                Color::LightYellow,
                "scroll of lightning bolt",
                false,
            );
            object.item = Some(Item::Lightning);
            object
        },
        Item::Confuse => {
            let mut object = Object::new(
                x,
                y,
                '#',
                Color::LightYellow,
                "scroll of confusion",
                false,
            );
            object.item = Some(Item::Confuse);
            object
        },
        Item::Fireball => {
            let mut object = Object::new(x, y, '#', Color::LightYellow, "scroll of fireball", false);
            object.item = Some(Item::Fireball);
            object
        },
        Item::Blink => {
            let mut object = Object::new(x, y, '#', Color::LightYellow, "scroll of blink", false);
            object.item = Some(Item::Blink);
            object
        },
        Item::Freeze => {
            let mut object = Object::new(x, y, '#', Color::LightYellow, "scroll of freeze", false);
            object.item = Some(Item::Freeze);
            object
        },
        Item::Sword => {
            let mut object = Object::new(x, y, '/', Color::Sky, "sword", false);
            object.item = Some(Item::Sword);
            object.equipment = Some(
                Equipment {
                    slot: Slot::RightHand,
                    equipped: false,
                    max_hp_bonus: 0,
                    defense_bonus: 0,
                    power_bonus: 1000,
                },
            );
            object
        },
        Item::Shield => {
            let mut object = Object::new(x, y, '/', Color::DarkerOrange, "shield", false);
            object.item = Some(Item::Shield);
            object.equipment = Some(
                Equipment {
                    slot: Slot::LeftHand,
                    equipped: false,
                    max_hp_bonus: 0,
                    defense_bonus: 1000,
                    power_bonus: 0,
                },
            );
            object
        },
    }
}

/// Number of entries of the item spawner's menu.
pub const SPAWNER_OPTIONS: usize = 6;

/// The item kind behind each entry of the item spawner's menu.
pub open spec fn spawner_item(index: int) -> Item {
    if index == 0 {
        Item::Heal
    } else if index == 1 {
        Item::Lightning
    } else if index == 2 {
        Item::Freeze
    } else if index == 3 {
        Item::Confuse
    } else if index == 4 {
        Item::Fireball
    } else {
        Item::Blink
    }
}

/// Turns the entry picked from the item spawner's menu, if any, into the
/// item kind to spawn. The menu lists healing potion, lightning bolt,
/// freeze, confusion, fireball and blink, in this order.
pub fn item_spawner_menu(selected_index: Option<usize>) -> (item: Option<Item>)
    requires
        selected_index matches Some(index) ==> index < SPAWNER_OPTIONS,
    ensures
        item == (match selected_index {
            Some(index) => Some(spawner_item(index as int)),
            None => None,
        }),
{
    match selected_index {
        Some(index) => {
            if index == 0 {
                Some(Item::Heal)
            } else if index == 1 {
                Some(Item::Lightning)
            } else if index == 2 {
                Some(Item::Freeze)
            } else if index == 3 {
                Some(Item::Confuse)
            } else if index == 4 {
                Some(Item::Fireball)
            } else {
                Some(Item::Blink)
            }
        },
        None => None,
    }
}

/// Where a spawned item may land relative to the player, in the order the
/// places are tried: the player's own tile first, then the four
/// neighbours, then the four diagonals.
pub open spec fn spawn_offsets() -> Seq<(int, int)> {
    seq![
        (0int, 0int),
        (0int, -1int),
        (0int, 1int),
        (-1int, 0int),
        (1int, 0int),
        (-1int, -1int),
        (1int, -1int),
        (-1int, 1int),
        (1int, 1int),
    ]
}

/// Whether a spawned item can land on `(x, y)`: the tile lies in the level
/// and nothing blocks it.
pub open spec fn can_land(map: Seq<Vec<Tile>>, objects: Seq<Object>, x: int, y: int) -> bool {
    0 <= x < MAP_WIDTH && 0 <= y < MAP_HEIGHT && !blocked_at(map, objects, x, y)
}

/// Whether the place with index `k` of [`spawn_offsets`] is the first one
/// an item can land on.
pub open spec fn is_first_landing(map: Seq<Vec<Tile>>, objects: Seq<Object>, k: int) -> bool {
    let player = objects[PLAYER as int];
    &&& 0 <= k < spawn_offsets().len()
    &&& can_land(map, objects, player.x + spawn_offsets()[k].0, player.y + spawn_offsets()[k].1)
    &&& forall|j: int|
        0 <= j < k ==> !can_land(
            map,
            objects,
            player.x + (#[trigger] spawn_offsets()[j]).0,
            player.y + spawn_offsets()[j].1,
        )
}

/// Whether an item can land on none of the places of [`spawn_offsets`].
pub open spec fn no_landing(map: Seq<Vec<Tile>>, objects: Seq<Object>) -> bool {
    let player = objects[PLAYER as int];
    forall|j: int|
        0 <= j < spawn_offsets().len() ==> !can_land(
            map,
            objects,
            player.x + (#[trigger] spawn_offsets()[j]).0,
            player.y + spawn_offsets()[j].1,
        )
}

/// The offsets of [`spawn_offsets`] as a list.
fn offsets() -> (list: Vec<(i64, i64)>)
    ensures
        list@.len() == spawn_offsets().len(),
        forall|k: int|
            0 <= k < list@.len() ==> (#[trigger] list@[k]).0 == spawn_offsets()[k].0 && list@[k].1
                == spawn_offsets()[k].1,
{
    let list: Vec<(i64, i64)> = vec![
        (0, 0),
        (0, -1),
        (0, 1),
        (-1, 0),
        (1, 0),
        (-1, -1),
        (1, -1),
        (-1, 1),
        (1, 1),
    ];
    list
}

/// Puts a new item of the given kind on the first free tile at or around
/// the player and notes it in the log. If there is no such tile, nothing
/// is spawned and the log says so.
pub fn spawn_item_at_player(game: &mut Game, objects: &mut Vec<Object>, item_type: Item)
    requires
        old(objects)@.len() >= 1,
        forall|x: int, y: int|
            0 <= x < MAP_WIDTH && 0 <= y < MAP_HEIGHT ==> in_map(old(game).map@, x, y),
    ensures
        final(game).map == old(game).map,
        final(game).inventory == old(game).inventory,
        final(game).dungeon_level == old(game).dungeon_level,
        no_landing(old(game).map@, old(objects)@) ==> {
            &&& final(objects)@ == old(objects)@
            &&& final(game).messages@ == old(game).messages@.push(Message::NoSpawnPosition)
        },
        forall|k: int| #[trigger]
            is_first_landing(old(game).map@, old(objects)@, k) ==> {
                let x = old(objects)@[0].x + spawn_offsets()[k].0;
                let y = old(objects)@[0].y + spawn_offsets()[k].1;
                &&& final(objects)@.len() == old(objects)@.len() + 1
                &&& final(objects)@.drop_last() == old(objects)@
                &&& is_created_item(final(objects)@.last(), item_type, x, y)
                &&& final(game).messages@ == old(game).messages@.push(
                    Message::Spawned {
                        name: final(objects)@.last().name,
                        x: x as i32,
                        y: y as i32,
                    },
                )
            },
{
    let player_x = objects[PLAYER].x;
    let player_y = objects[PLAYER].y;
    let directions = offsets();
    let mut k: usize = 0;
    while k < directions.len()
        invariant
            k <= directions@.len(),
            directions@.len() == spawn_offsets().len(),
            forall|j: int|
                0 <= j < directions@.len() ==> (#[trigger] directions@[j]).0 == spawn_offsets()[j].0
                    && directions@[j].1 == spawn_offsets()[j].1,
            objects@ == old(objects)@,
            *game == *old(game),
            player_x == objects@[0].x,
            player_y == objects@[0].y,
            forall|x: int, y: int|
                0 <= x < MAP_WIDTH && 0 <= y < MAP_HEIGHT ==> in_map(game.map@, x, y),
            forall|j: int|
                0 <= j < k ==> !can_land(
                    game.map@,
                    objects@,
                    player_x + (#[trigger] spawn_offsets()[j]).0,
                    player_y + spawn_offsets()[j].1,
                ),
        decreases directions@.len() - k,
    {
        let (dx, dy) = directions[k];
        let spawn_x: i64 = player_x as i64 + dx;
        let spawn_y: i64 = player_y as i64 + dy;
        assert(spawn_x == player_x + spawn_offsets()[k as int].0);
        assert(spawn_y == player_y + spawn_offsets()[k as int].1);

        if spawn_x >= 0 && spawn_x < MAP_WIDTH as i64 && spawn_y >= 0 && spawn_y < MAP_HEIGHT as i64
            && !is_blocked(spawn_x as i32, spawn_y as i32, &game.map, objects.as_slice()) {
            let item = create_item(item_type, spawn_x as i32, spawn_y as i32);
            game.messages.add(
                Message::Spawned { name: item.name.clone(), x: spawn_x as i32, y: spawn_y as i32 },
            );
            objects.push(item);
            proof {
                assert(is_first_landing(old(game).map@, old(objects)@, k as int));
                assert(objects@.drop_last() =~= old(objects)@);
                assert forall|other: int| #[trigger]
                    is_first_landing(old(game).map@, old(objects)@, other) implies other == k by {
                    if other < k {
                        assert(!can_land(
                            old(game).map@,
                            old(objects)@,
                            player_x + spawn_offsets()[other].0,
                            player_y + spawn_offsets()[other].1,
                        ));
                    } else if other > k {
                        assert(!can_land(
                            old(game).map@,
                            old(objects)@,
                            player_x + spawn_offsets()[k as int].0,
                            player_y + spawn_offsets()[k as int].1,
                        ));
                    }
                }
                assert(!no_landing(old(game).map@, old(objects)@)) by {
                    if no_landing(old(game).map@, old(objects)@) {
                        assert(!can_land(
                            old(game).map@,
                            old(objects)@,
                            player_x + spawn_offsets()[k as int].0,
                            player_y + spawn_offsets()[k as int].1,
                        ));
                    }
                }
            }
            return ;
        }
        k += 1;
    }

    game.messages.add(Message::NoSpawnPosition);
    proof {
        assert forall|other: int| #[trigger]
            is_first_landing(old(game).map@, old(objects)@, other) implies false by {
            assert(!can_land(
                old(game).map@,
                old(objects)@,
                player_x + spawn_offsets()[other].0,
                player_y + spawn_offsets()[other].1,
            ));
        }
    }
}

/// What dropping an item adds to the log.
pub open spec fn drop_log(item: Object) -> Seq<Message> {
    let dropped = seq![Message::Dropped { name: item.name }];
    if item.is_equipped() {
        seq![Message::Dequipped { name: item.name, slot: item.equipment->0.slot }] + dropped
    } else {
        dropped
    }
}

/// Takes the item at position `inventory_id` out of the inventory and lays
/// it on the player's tile. Equipment that is worn is taken off first.
pub fn drop_item(inventory_id: usize, game: &mut Game, objects: &mut Vec<Object>)
    requires
        inventory_id < old(game).inventory@.len(),
        old(objects)@.len() >= 1,
    ensures
        final(game).inventory@ == old(game).inventory@.remove(inventory_id as int),
        final(objects)@ == old(objects)@.push(
            Object {
                x: old(objects)@[0].x,
                y: old(objects)@[0].y,
                ..old(game).inventory@[inventory_id as int].equipped_as(false)
            },
        ),
        final(game).messages@ == old(game).messages@ + drop_log(
            old(game).inventory@[inventory_id as int],
        ),
        final(game).map == old(game).map,
        final(game).dungeon_level == old(game).dungeon_level,
{
    let mut item = game.inventory.remove(inventory_id);
    let ghost carried = item;
    if item.equipment.is_some() {
        item.dequip(&mut game.messages);
    }
    item.set_pos(objects[PLAYER].x, objects[PLAYER].y);
    game.messages.add(Message::Dropped { name: item.name.clone() });
    proof {
        assert(game.messages@ =~= old(game).messages@ + drop_log(carried));
        if carried.equipment is Some && !carried.is_equipped() {
            assert(carried.equipped_as(false) == carried);
        }
    }
    objects.push(item);
}

/// Whether position `id` of the inventory holds the first item worn in
/// `slot`.
pub open spec fn is_first_equipped_in(slot: Slot, inventory: Seq<Object>, id: int) -> bool {
    &&& 0 <= id < inventory.len()
    &&& inventory[id].is_equipped_in(slot)
    &&& forall|j: int| 0 <= j < id ==> !(#[trigger] inventory[j]).is_equipped_in(slot)
}

/// Whether nothing in the inventory is worn in `slot`.
pub open spec fn slot_free(slot: Slot, inventory: Seq<Object>) -> bool {
    forall|j: int| 0 <= j < inventory.len() ==> !(#[trigger] inventory[j]).is_equipped_in(slot)
}

/// The position of the first item of the inventory that is worn in `slot`,
/// if there is one.
pub fn get_equipped_in_slot(slot: Slot, inventory: &[Object]) -> (found: Option<usize>)
    ensures
        match found {
            Some(id) => is_first_equipped_in(slot, inventory@, id as int),
            None => slot_free(slot, inventory@),
        },
{
    let mut inventory_id: usize = 0;
    while inventory_id < inventory.len()
        invariant
            inventory_id <= inventory@.len(),
            forall|j: int|
                0 <= j < inventory_id ==> !(#[trigger] inventory@[j]).is_equipped_in(slot),
        decreases inventory@.len() - inventory_id,
    {
        let worn = match inventory[inventory_id].equipment {
            Some(equipment) => equipment.equipped && equipment.slot == slot,
            None => false,
        };
        if worn {
            return Some(inventory_id);
        }
        inventory_id += 1;
    }
    None
}

/// Whether at most one item of the inventory is worn in each slot.
pub open spec fn one_per_slot(inventory: Seq<Object>) -> bool {
    forall|i: int, j: int|
        0 <= i < j < inventory.len() && (#[trigger] inventory[i]).is_equipped() && (
        #[trigger] inventory[j]).is_equipped() ==> inventory[i].equipment->0.slot
            != inventory[j].equipment->0.slot
}

/// The inventory after the item at position `id` has been put on or taken
/// off: a worn item is taken off; an item that is not worn is put on,
/// after the first item worn in the same slot, if any, has been taken off.
/// An item that is no equipment leaves the inventory as it is.
pub open spec fn toggled(id: int, inventory: Seq<Object>) -> Seq<Object> {
    match inventory[id].equipment {
        None => inventory,
        Some(equipment) => if equipment.equipped {
            inventory.update(id, inventory[id].equipped_as(false))
        } else {
            Seq::new(
                inventory.len(),
                |i: int|
                    if i == id {
                        inventory[i].equipped_as(true)
                    } else if is_first_equipped_in(equipment.slot, inventory, i) {
                        inventory[i].equipped_as(false)
                    } else {
                        inventory[i]
                    },
            )
        },
    }
}

/// What putting on or taking off the item at position `id` adds to the
/// log.
pub open spec fn toggle_log(id: int, inventory: Seq<Object>) -> Seq<Message> {
    let item = inventory[id];
    match item.equipment {
        None => Seq::empty(),
        Some(equipment) => if equipment.equipped {
            seq![Message::Dequipped { name: item.name, slot: equipment.slot }]
        } else {
            let on = seq![Message::Equipped { name: item.name, slot: equipment.slot }];
            if slot_free(equipment.slot, inventory) {
                on
            } else {
                let current = choose|c: int| is_first_equipped_in(equipment.slot, inventory, c);
                seq![Message::Dequipped { name: inventory[current].name, slot: equipment.slot }]
                    + on
            }
        },
    }
}

/// Puts the item at position `inventory_id` on if it is not worn and takes
/// it off if it is. Before an item is put on, whatever is worn in its slot
/// is taken off. Using something that is no equipment is cancelled.
///
/// If at most one item per slot was worn before, the same holds after,
/// and an item that was put on is then the only one worn in its slot.
pub fn toggle_equipment(inventory_id: usize, game: &mut Game) -> (result: UseResult)
    requires
        inventory_id < old(game).inventory@.len(),
    ensures
        result == (if old(game).inventory@[inventory_id as int].equipment is Some {
            UseResult::UsedAndKept
        } else {
            UseResult::Cancelled
        }),
        final(game).inventory@ == toggled(inventory_id as int, old(game).inventory@),
        final(game).messages@ == old(game).messages@ + toggle_log(
            inventory_id as int,
            old(game).inventory@,
        ),
        final(game).map == old(game).map,
        final(game).dungeon_level == old(game).dungeon_level,
        one_per_slot(old(game).inventory@) ==> one_per_slot(final(game).inventory@),
        one_per_slot(old(game).inventory@) && old(game).inventory@[inventory_id as int].equipment
            is Some && !old(game).inventory@[inventory_id as int].is_equipped() ==> forall|i: int|
            0 <= i < final(game).inventory@.len() ==> ((#[trigger] final(game).inventory@[i]).is_equipped_in(
                old(game).inventory@[inventory_id as int].equipment->0.slot,
            ) <==> i == inventory_id),
{
    let ghost before = game.inventory@;
    let ghost id = inventory_id as int;
    let equipment = match game.inventory[inventory_id].equipment {
        Some(equipment) => equipment,
        None => {
            assert(game.messages@ + Seq::<Message>::empty() =~= game.messages@);
            return UseResult::Cancelled;
        },
    };
    if equipment.equipped {
        game.inventory[inventory_id].dequip(&mut game.messages);
        proof {
            assert(game.messages@ =~= old(game).messages@ + toggle_log(id, before));
            if one_per_slot(before) {
                lemma_toggle_keeps_one_per_slot(id, before);
            }
        }
    } else {
        match get_equipped_in_slot(equipment.slot, game.inventory.as_slice()) {
            Some(current) => {
                game.inventory[current].dequip(&mut game.messages);
                proof {
                    lemma_first_equipped_unique(equipment.slot, before, current as int);
                }
            },
            None => {},
        }
        game.inventory[inventory_id].equip(&mut game.messages);
        proof {
            assert(game.inventory@ =~= toggled(id, before)) by {
                assert forall|i: int| 0 <= i < before.len() implies game.inventory@[i] == toggled(
                    id,
                    before,
                )[i] by {
                    if is_first_equipped_in(equipment.slot, before, i) {
                        lemma_first_equipped_unique(equipment.slot, before, i);
                    }
                }
            }
            assert(game.messages@ =~= old(game).messages@ + toggle_log(id, before)) by {
                if !slot_free(equipment.slot, before) {
                    let c = choose|c: int| is_first_equipped_in(equipment.slot, before, c);
                    lemma_first_equipped_unique(equipment.slot, before, c);
                }
            }
            if one_per_slot(before) {
                lemma_toggle_keeps_one_per_slot(id, before);
            }
        }
    }
    UseResult::UsedAndKept
}

/// There is at most one first item worn in a slot, and if there is one the
/// slot is not free.
proof fn lemma_first_equipped_unique(slot: Slot, inventory: Seq<Object>, id: int)
    requires
        is_first_equipped_in(slot, inventory, id),
    ensures
        !slot_free(slot, inventory),
        forall|other: int| is_first_equipped_in(slot, inventory, other) ==> other == id,
{
    assert(inventory[id].is_equipped_in(slot));
    assert forall|other: int| is_first_equipped_in(slot, inventory, other) implies other == id by {
        if other < id {
            assert(inventory[other].is_equipped_in(slot));
        } else if id < other {
            assert(inventory[id].is_equipped_in(slot));
        }
    }
}

/// Putting an item on or taking it off keeps the inventory at one worn
/// item per slot, and an item that was put on is afterwards the only one
/// worn in its slot.
pub proof fn lemma_toggle_keeps_one_per_slot(id: int, inventory: Seq<Object>)
    requires
        0 <= id < inventory.len(),
        one_per_slot(inventory),
    ensures
        one_per_slot(toggled(id, inventory)),
        inventory[id].equipment is Some && !inventory[id].is_equipped() ==> forall|i: int|
            0 <= i < inventory.len() ==> ((#[trigger] toggled(id, inventory)[i]).is_equipped_in(
                inventory[id].equipment->0.slot,
            ) <==> i == id),
{
    let after = toggled(id, inventory);
    match inventory[id].equipment {
        None => {},
        Some(equipment) => {
            if equipment.equipped {
                assert forall|i: int, j: int|
                    0 <= i < j < after.len() && (#[trigger] after[i]).is_equipped() && (
                    #[trigger] after[j]).is_equipped() implies after[i].equipment->0.slot
                    != after[j].equipment->0.slot by {
                    assert(inventory[i].is_equipped() && inventory[j].is_equipped());
                }
            } else {
                let slot = equipment.slot;
                // whatever is still worn in the slot besides the item was
                // worn before and was not the first, so two were worn
                assert forall|i: int| 0 <= i < inventory.len() && i != id implies !(
                #[trigger] after[i]).is_equipped_in(slot) by {
                    if after[i].is_equipped_in(slot) {
                        assert(inventory[i].is_equipped_in(slot));
                        assert(!is_first_equipped_in(slot, inventory, i));
                        let j = choose|j: int|
                            0 <= j < i && (#[trigger] inventory[j]).is_equipped_in(slot);
                        assert(inventory[j].is_equipped() && inventory[i].is_equipped());
                    }
                }
                assert forall|i: int, j: int|
                    0 <= i < j < after.len() && (#[trigger] after[i]).is_equipped() && (
                    #[trigger] after[j]).is_equipped() implies after[i].equipment->0.slot
                    != after[j].equipment->0.slot by {
                    if i == id {
                        assert(!after[j].is_equipped_in(slot));
                    } else if j == id {
                        assert(!after[i].is_equipped_in(slot));
                    } else {
                        assert(inventory[i].is_equipped() && inventory[j].is_equipped());
                    }
                }
            }
        },
    }
}

/// How an effect ended, what it made of the registry, and what it added to
/// the log.
pub ghost struct Outcome {
    pub result: UseResult,
    pub objects: Seq<Object>,
    pub log: Seq<Message>,
}

/// What the machine's number range demands of drinking a healing potion:
/// the player's maximum can be held, and so can the sum of hit points and
/// [`HEAL_AMOUNT`] where it is worked out, that is, below full health.
pub open spec fn heal_in_range(inventory: Seq<Object>, objects: Seq<Object>) -> bool {
    objects[0].fighter matches Some(fighter) ==> {
        &&& fits_i32(total_stat(0, objects, inventory, Stat::MaxHp))
        &&& fighter.hp != total_stat(0, objects, inventory, Stat::MaxHp) ==> fits_i32(
            fighter.hp + HEAL_AMOUNT,
        )
    }
}

/// The outcome of drinking a healing potion: cancelled at full health (or
/// if the player cannot fight); otherwise the player is healed by
/// [`HEAL_AMOUNT`], up to the maximum, and the potion is gone.
pub open spec fn heal_outcome(inventory: Seq<Object>, objects: Seq<Object>) -> Outcome {
    let max_hp = total_stat(0, objects, inventory, Stat::MaxHp);
    match objects[0].fighter {
        Some(fighter) => if fighter.hp == max_hp {
            Outcome {
                result: UseResult::Cancelled,
                objects,
                log: seq![Message::AlreadyFullHealth],
            }
        } else {
            Outcome {
                result: UseResult::UsedUp,
                objects: objects.update(0, objects[0].healed_by(HEAL_AMOUNT as int, max_hp)),
                log: seq![Message::WoundsHealed],
            }
        },
        None => Outcome { result: UseResult::Cancelled, objects, log: Seq::empty() },
    }
}

/// Drinks a healing potion; see [`heal_outcome`].
pub fn cast_heal(game: &mut Game, objects: &mut [Object]) -> (result: UseResult)
    requires
        old(objects)@.len() >= 1,
        heal_in_range(old(game).inventory@, old(objects)@),
    ensures
        result == heal_outcome(old(game).inventory@, old(objects)@).result,
        final(objects)@ == heal_outcome(old(game).inventory@, old(objects)@).objects,
        final(game).messages@ == old(game).messages@ + heal_outcome(
            old(game).inventory@,
            old(objects)@,
        ).log,
        final(game).map == old(game).map,
        final(game).inventory == old(game).inventory,
        final(game).dungeon_level == old(game).dungeon_level,
{
    match objects[PLAYER].fighter {
        Some(fighter) => {
            if fighter.hp == max_hp(PLAYER, objects, game) {
                game.messages.add(Message::AlreadyFullHealth);
                assert(game.messages@ =~= old(game).messages@ + seq![Message::AlreadyFullHealth]);
                return UseResult::Cancelled;
            }
            game.messages.add(Message::WoundsHealed);
            heal(PLAYER, HEAL_AMOUNT, objects, game);
            assert(game.messages@ =~= old(game).messages@ + seq![Message::WoundsHealed]);
            UseResult::UsedUp
        },
        None => {
            assert(game.messages@ + Seq::<Message>::empty() =~= game.messages@);
            UseResult::Cancelled
        },
    }
}

/// Whether the actor at index `id` can be struck by lightning: it is a
/// monster that fights, acts, and is in view.
pub open spec fn can_be_struck(objects: Seq<Object>, fov: Fov, id: int) -> bool {
    &&& 0 <= id < objects.len()
    &&& id != PLAYER
    &&& objects[id].fighter is Some
    &&& objects[id].ai is Some
    &&& fov.sees(objects[id].x as int, objects[id].y as int)
}

/// Squared distance between the player and the actor at index `id`.
pub open spec fn player_distance(objects: Seq<Object>, id: int) -> int {
    dist_sq(objects[0].x as int, objects[0].y as int, objects[id].x as int, objects[id].y as int)
}

/// Whether the actor at index `id` is the one a search for the closest
/// monster finds: it can be struck, is within `max_range` tiles of the
/// player, and nobody who can be struck is closer, or as close with a
/// lower index.
pub open spec fn is_closest(objects: Seq<Object>, fov: Fov, max_range: int, id: int) -> bool {
    &&& can_be_struck(objects, fov, id)
    &&& within_range(player_distance(objects, id), max_range)
    &&& forall|j: int| #[trigger]
        can_be_struck(objects, fov, j) ==> player_distance(objects, j) > player_distance(
            objects,
            id,
        ) || (player_distance(objects, j) == player_distance(objects, id) && j >= id)
}

/// Whether nobody who can be struck is within `max_range` tiles of the
/// player.
pub open spec fn none_in_reach(objects: Seq<Object>, fov: Fov, max_range: int) -> bool {
    forall|j: int| #[trigger]
        can_be_struck(objects, fov, j) ==> !within_range(player_distance(objects, j), max_range)
}

/// The index of the closest monster, if any is in reach.
pub open spec fn closest(objects: Seq<Object>, fov: Fov, max_range: int) -> Option<int> {
    if exists|id: int| is_closest(objects, fov, max_range, id) {
        Some(choose|id: int| is_closest(objects, fov, max_range, id))
    } else {
        None
    }
}

/// At most one actor is the closest, and none is if nobody is in reach.
pub proof fn lemma_closest_unique(objects: Seq<Object>, fov: Fov, max_range: int, id: int)
    requires
        is_closest(objects, fov, max_range, id),
    ensures
        closest(objects, fov, max_range) == Some(id),
        !none_in_reach(objects, fov, max_range),
{
    let other = choose|other: int| is_closest(objects, fov, max_range, other);
    assert(can_be_struck(objects, fov, id));
    assert(can_be_struck(objects, fov, other));
}

/// If nobody is in reach, nobody is the closest.
pub proof fn lemma_closest_none(objects: Seq<Object>, fov: Fov, max_range: int)
    requires
        none_in_reach(objects, fov, max_range),
    ensures
        closest(objects, fov, max_range) is None,
{
    if exists|id: int| is_closest(objects, fov, max_range, id) {
        let id = choose|id: int| is_closest(objects, fov, max_range, id);
        assert(can_be_struck(objects, fov, id));
    }
}

/// Finds the monster closest to the player among those in view that are
/// within `max_range` tiles, the boundary included. Of several at the same
/// distance the one with the lowest index is found.
pub fn closest_monster(fov: &Fov, objects: &[Object], max_range: i32) -> (found: Option<usize>)
    requires
        objects@.len() >= 1,
    ensures
        match found {
            Some(id) => closest(objects@, *fov, max_range as int) == Some(id as int),
            None => closest(objects@, *fov, max_range as int) is None,
        },
        found matches Some(id) ==> is_closest(objects@, *fov, max_range as int, id as int),
        found is None ==> none_in_reach(objects@, *fov, max_range as int),
{
    let mut closest_enemy: Option<usize> = None;
    let mut closest_dist: i128 = 0;

    let mut id: usize = 0;
    while id < objects.len()
        invariant
            id <= objects@.len(),
            objects@.len() >= 1,
            closest_enemy is None ==> forall|j: int|
                0 <= j < id && #[trigger] can_be_struck(objects@, *fov, j) ==> !within_range(
                    player_distance(objects@, j),
                    max_range as int,
                ),
            closest_enemy matches Some(best) ==> {
                &&& best < id
                &&& can_be_struck(objects@, *fov, best as int)
                &&& closest_dist == player_distance(objects@, best as int)
                &&& within_range(closest_dist as int, max_range as int)
                &&& forall|j: int|
                    0 <= j < id && #[trigger] can_be_struck(objects@, *fov, j) ==> player_distance(
                        objects@,
                        j,
                    ) > closest_dist || (player_distance(objects@, j) == closest_dist && j >= best)
            },
        decreases objects@.len() - id,
    {
        let object = &objects[id];
        if (id != PLAYER) && object.fighter.is_some() && object.ai.is_some() && fov.is_in_fov(
            object.x,
            object.y,
        ) {
            let dist = objects[PLAYER].distance_squared_to(object);
            let closer = match closest_enemy {
                Some(_) => dist < closest_dist,
                None => is_within_range(dist, max_range),
            };
            if closer {
                closest_enemy = Some(id);
                closest_dist = dist;
            }
        }
        id += 1;
    }
    proof {
        match closest_enemy {
            Some(best) => {
                assert(is_closest(objects@, *fov, max_range as int, best as int));
                lemma_closest_unique(objects@, *fov, max_range as int, best as int);
            },
            None => {
                assert(none_in_reach(objects@, *fov, max_range as int));
                lemma_closest_none(objects@, *fov, max_range as int);
            },
        }
    }
    closest_enemy
}

/// The experience a player earns for dealing `damage` to `target`.
pub open spec fn kill_reward(target: Object, damage: int) -> int {
    match target.reward_for(damage) {
        Some(xp) => xp as int,
        None => 0,
    }
}

/// What the machine's number range demands of a lightning bolt.
pub open spec fn lightning_in_range(fov: Fov, objects: Seq<Object>) -> bool {
    closest(objects, fov, LIGHTNING_RANGE as int) matches Some(id) ==> {
        &&& fits_i32(objects[id].fighter->0.hp - LIGHTNING_DAMAGE)
        &&& objects[0].fighter matches Some(fighter) ==> fits_i32(
            fighter.xp + kill_reward(objects[id], LIGHTNING_DAMAGE as int),
        )
    }
}

/// The outcome of a lightning bolt: it strikes the closest monster in
/// reach for [`LIGHTNING_DAMAGE`], whatever its defense, and the player
/// earns the reward if that kills it. With no monster in reach the bolt is
/// cancelled.
pub open spec fn lightning_outcome(fov: Fov, objects: Seq<Object>) -> Outcome {
    match closest(objects, fov, LIGHTNING_RANGE as int) {
        Some(id) => Outcome {
            result: UseResult::UsedUp,
            objects: objects.update(id, objects[id].after_damage(LIGHTNING_DAMAGE as int)).update(
                0,
                objects[0].with_xp_gain(kill_reward(objects[id], LIGHTNING_DAMAGE as int)),
            ),
            log: seq![
                Message::LightningStrike { name: objects[id].name, damage: LIGHTNING_DAMAGE },
            ] + objects[id].damage_log(LIGHTNING_DAMAGE as int),
        },
        None => Outcome {
            result: UseResult::Cancelled,
            objects,
            log: seq![Message::LightningNoTarget],
        },
    }
}

/// Casts a lightning bolt; see [`lightning_outcome`].
pub fn cast_lightning(fov: &Fov, game: &mut Game, objects: &mut [Object]) -> (result: UseResult)
    requires
        old(objects)@.len() >= 1,
        lightning_in_range(*fov, old(objects)@),
    ensures
        result == lightning_outcome(*fov, old(objects)@).result,
        final(objects)@ == lightning_outcome(*fov, old(objects)@).objects,
        final(game).messages@ == old(game).messages@ + lightning_outcome(*fov, old(objects)@).log,
        final(game).map == old(game).map,
        final(game).inventory == old(game).inventory,
        final(game).dungeon_level == old(game).dungeon_level,
{
    let monster_id = closest_monster(fov, objects, LIGHTNING_RANGE);
    match monster_id {
        Some(monster_id) => {
            game.messages.add(
                Message::LightningStrike {
                    name: objects[monster_id].name.clone(),
                    damage: LIGHTNING_DAMAGE,
                },
            );
            match objects[monster_id].take_damage(LIGHTNING_DAMAGE, &mut game.messages) {
                Some(xp) => {
                    objects[PLAYER].gain_xp(xp);
                },
                None => {
                    assert(old(objects)@[0].with_xp_gain(0) == old(objects)@[0]);
                },
            }
            proof {
                let target = old(objects)@[monster_id as int];
                assert(game.messages@ =~= old(game).messages@ + (seq![
                    Message::LightningStrike { name: target.name, damage: LIGHTNING_DAMAGE },
                ] + target.damage_log(LIGHTNING_DAMAGE as int)));
            }
            UseResult::UsedUp
        },
        None => {
            game.messages.add(Message::LightningNoTarget);
            assert(game.messages@ =~= old(game).messages@ + seq![Message::LightningNoTarget]);
            UseResult::Cancelled
        },
    }
}

/// The behaviour a monster has once confusion has been cast on it. The
/// effect is laid over the plain behaviour the monster had, or over
/// [`Ai::Basic`] if it had none; an effect already in force is replaced,
/// not wrapped.
pub open spec fn confused_ai(ai: Option<Ai>) -> Ai {
    Ai::Confused {
        previous_ai: Box::new(
            match ai {
                Some(ai) => ai.underlying(),
                None => Ai::Basic,
            },
        ),
        num_turns: CONFUSE_NUM_TURNS,
    }
}

/// The behaviour a monster has once freezing has been cast on it; see
/// [`confused_ai`].
pub open spec fn frozen_ai(ai: Option<Ai>) -> Ai {
    Ai::Frozen {
        previous_ai: Box::new(
            match ai {
                Some(ai) => ai.underlying(),
                None => Ai::Basic,
            },
        ),
        num_turns: FREEZE_NUM_TURNS,
    }
}

/// The outcome of a confusion scroll: the chosen monster is confused for
/// [`CONFUSE_NUM_TURNS`] turns and the scroll is gone; without a target
/// the scroll is cancelled.
pub open spec fn confuse_outcome(target: Option<usize>, objects: Seq<Object>) -> Outcome {
    match target {
        Some(id) => Outcome {
            result: UseResult::UsedUp,
            objects: objects.update(
                id as int,
                Object { ai: Some(confused_ai(objects[id as int].ai)), ..objects[id as int] },
            ),
            log: seq![Message::ConfuseApplied { name: objects[id as int].name }],
        },
        None => Outcome {
            result: UseResult::Cancelled,
            objects,
            log: seq![Message::ConfuseNoTarget],
        },
    }
}

/// The outcome of a freeze scroll: the chosen monster is frozen for
/// [`FREEZE_NUM_TURNS`] turns and the scroll is gone; without a target the
/// scroll is cancelled.
pub open spec fn freeze_outcome(target: Option<usize>, objects: Seq<Object>) -> Outcome {
    match target {
        Some(id) => Outcome {
            result: UseResult::UsedUp,
            objects: objects.update(
                id as int,
                Object { ai: Some(frozen_ai(objects[id as int].ai)), ..objects[id as int] },
            ),
            log: seq![Message::FreezeApplied { name: objects[id as int].name }],
        },
        None => Outcome {
            result: UseResult::Cancelled,
            objects,
            log: seq![Message::FreezeNoTarget],
        },
    }
}

/// Reads a confusion scroll at the monster chosen for it, if any; see
/// [`confuse_outcome`].
pub fn cast_confuse(target: Option<usize>, game: &mut Game, objects: &mut [Object]) -> (result:
    UseResult)
    requires
        target matches Some(id) ==> id < old(objects)@.len(),
    ensures
        result == confuse_outcome(target, old(objects)@).result,
        final(objects)@ == confuse_outcome(target, old(objects)@).objects,
        final(game).messages@ == old(game).messages@ + confuse_outcome(target, old(objects)@).log,
        final(game).map == old(game).map,
        final(game).inventory == old(game).inventory,
        final(game).dungeon_level == old(game).dungeon_level,
        target matches Some(id) ==> ((old(objects)@[id as int].ai matches Some(ai)
            ==> ai.well_formed()) ==> final(objects)@[id as int].ai->0.well_formed()),
{
    match target {
        Some(monster_id) => {
            let old_ai = match objects[monster_id].ai.take() {
                Some(ai) => ai.into_underlying(),
                None => Ai::Basic,
            };
            objects[monster_id].ai = Some(
                Ai::Confused { previous_ai: Box::new(old_ai), num_turns: CONFUSE_NUM_TURNS },
            );
            game.messages.add(Message::ConfuseApplied { name: objects[monster_id].name.clone() });
            proof {
                let before = old(objects)@[monster_id as int];
                assert(game.messages@ =~= old(game).messages@ + seq![
                    Message::ConfuseApplied { name: before.name },
                ]);
                assert(objects@ =~= confuse_outcome(target, old(objects)@).objects);
            }
            UseResult::UsedUp
        },
        None => {
            game.messages.add(Message::ConfuseNoTarget);
            assert(game.messages@ =~= old(game).messages@ + seq![Message::ConfuseNoTarget]);
            UseResult::Cancelled
        },
    }
}

/// Reads a freeze scroll at the monster chosen for it, if any; see
/// [`freeze_outcome`].
pub fn cast_freeze(target: Option<usize>, game: &mut Game, objects: &mut [Object]) -> (result:
    UseResult)
    requires
        target matches Some(id) ==> id < old(objects)@.len(),
    ensures
        result == freeze_outcome(target, old(objects)@).result,
        final(objects)@ == freeze_outcome(target, old(objects)@).objects,
        final(game).messages@ == old(game).messages@ + freeze_outcome(target, old(objects)@).log,
        final(game).map == old(game).map,
        final(game).inventory == old(game).inventory,
        final(game).dungeon_level == old(game).dungeon_level,
        target matches Some(id) ==> ((old(objects)@[id as int].ai matches Some(ai)
            ==> ai.well_formed()) ==> final(objects)@[id as int].ai->0.well_formed()),
{
    match target {
        Some(monster_id) => {
            let old_ai = match objects[monster_id].ai.take() {
                Some(ai) => ai.into_underlying(),
                None => Ai::Basic,
            };
            objects[monster_id].ai = Some(
                Ai::Frozen { previous_ai: Box::new(old_ai), num_turns: FREEZE_NUM_TURNS },
            );
            game.messages.add(Message::FreezeApplied { name: objects[monster_id].name.clone() });
            proof {
                let before = old(objects)@[monster_id as int];
                assert(game.messages@ =~= old(game).messages@ + seq![
                    Message::FreezeApplied { name: before.name },
                ]);
                assert(objects@ =~= freeze_outcome(target, old(objects)@).objects);
            }
            UseResult::UsedUp
        },
        None => {
            game.messages.add(Message::FreezeNoTarget);
            assert(game.messages@ =~= old(game).messages@ + seq![Message::FreezeNoTarget]);
            UseResult::Cancelled
        },
    }
}

/// The outcome of a blink scroll: the player is carried to the chosen
/// tile and the scroll is gone, unless the tile is blocked or none was
/// chosen, in which case the scroll is cancelled.
pub open spec fn blink_outcome(target: Option<(i32, i32)>, map: Seq<Vec<Tile>>, objects: Seq<Object>)
    -> Outcome {
    match target {
        Some((x, y)) => if blocked_at(map, objects, x as int, y as int) {
            Outcome { result: UseResult::Cancelled, objects, log: seq![Message::BlinkBlocked] }
        } else {
            Outcome {
                result: UseResult::UsedUp,
                objects: objects.update(0, Object { x, y, ..objects[0] }),
                log: seq![Message::BlinkDone],
            }
        },
        None => Outcome { result: UseResult::Cancelled, objects, log: seq![Message::BlinkCancelled] },
    }
}

/// Reads a blink scroll with the tile chosen for it, if any; see
/// [`blink_outcome`].
pub fn cast_blink(target: Option<(i32, i32)>, game: &mut Game, objects: &mut [Object]) -> (result:
    UseResult)
    requires
        old(objects)@.len() >= 1,
        target matches Some((x, y)) ==> in_map(old(game).map@, x as int, y as int),
    ensures
        result == blink_outcome(target, old(game).map@, old(objects)@).result,
        final(objects)@ == blink_outcome(target, old(game).map@, old(objects)@).objects,
        final(game).messages@ == old(game).messages@ + blink_outcome(
            target,
            old(game).map@,
            old(objects)@,
        ).log,
        final(game).map == old(game).map,
        final(game).inventory == old(game).inventory,
        final(game).dungeon_level == old(game).dungeon_level,
{
    let (x, y) = match target {
        Some(tile_pos) => tile_pos,
        None => {
            game.messages.add(Message::BlinkCancelled);
            assert(game.messages@ =~= old(game).messages@ + seq![Message::BlinkCancelled]);
            return UseResult::Cancelled;
        },
    };
    if is_blocked(x, y, &game.map, objects) {
        game.messages.add(Message::BlinkBlocked);
        assert(game.messages@ =~= old(game).messages@ + seq![Message::BlinkBlocked]);
        return UseResult::Cancelled;
    }
    game.messages.add(Message::BlinkDone);
    assert(game.messages@ =~= old(game).messages@ + seq![Message::BlinkDone]);
    objects[PLAYER].set_pos(x, y);
    UseResult::UsedUp
}

/// Whether a fireball bursting on `(x, y)` burns the actor: it can fight
/// and is at most [`FIREBALL_RADIUS`] tiles away, the boundary included.
pub open spec fn in_blast(object: Object, x: int, y: int) -> bool {
    &&& dist_sq(object.x as int, object.y as int, x, y) <= FIREBALL_RADIUS * FIREBALL_RADIUS
    &&& object.fighter is Some
}

/// The actor after a fireball has burst on `(x, y)`: burnt for
/// [`FIREBALL_DAMAGE`] if it is in the blast, untouched if it is not.
pub open spec fn burned(object: Object, x: int, y: int) -> Object {
    if in_blast(object, x, y) {
        object.after_damage(FIREBALL_DAMAGE as int)
    } else {
        object
    }
}

/// What burning the actor adds to the log.
pub open spec fn burn_log(object: Object, x: int, y: int) -> Seq<Message> {
    if in_blast(object, x, y) {
        seq![Message::FireballBurns { name: object.name, damage: FIREBALL_DAMAGE }]
            + object.damage_log(FIREBALL_DAMAGE as int)
    } else {
        Seq::empty()
    }
}

/// The experience the player earns for the actor at index `id` when a
/// fireball bursts on `(x, y)`: its reward if the blast kills it, but
/// nothing for the player's own death.
pub open spec fn burn_reward(objects: Seq<Object>, id: int, x: int, y: int) -> int {
    if id != PLAYER && in_blast(objects[id], x, y) {
        kill_reward(objects[id], FIREBALL_DAMAGE as int)
    } else {
        0
    }
}

/// The experience earned for the first `upto` actors of the registry.
pub open spec fn blast_reward(objects: Seq<Object>, x: int, y: int, upto: int) -> int
    decreases upto,
{
    if upto <= 0 {
        0
    } else {
        blast_reward(objects, x, y, upto - 1) + burn_reward(objects, upto - 1, x, y)
    }
}

/// What burning the first `upto` actors of the registry adds to the log.
pub open spec fn blast_log(objects: Seq<Object>, x: int, y: int, upto: int) -> Seq<Message>
    decreases upto,
{
    if upto <= 0 {
        Seq::empty()
    } else {
        blast_log(objects, x, y, upto - 1) + burn_log(objects[upto - 1], x, y)
    }
}

/// The registry after a fireball has burst on `(x, y)`: everybody in the
/// blast is burnt, the player included, and the player has earned the
/// rewards for all who died of it.
pub open spec fn blasted(objects: Seq<Object>, x: int, y: int) -> Seq<Object> {
    Seq::new(
        objects.len(),
        |i: int|
            if i == PLAYER {
                burned(objects[i], x, y).with_xp_gain(
                    blast_reward(objects, x, y, objects.len() as int),
                )
            } else {
                burned(objects[i], x, y)
            },
    )
}

/// What the machine's number range demands of a fireball bursting on
/// `(x, y)`.
pub open spec fn fireball_in_range(objects: Seq<Object>, x: int, y: int) -> bool {
    &&& forall|i: int|
        0 <= i < objects.len() && in_blast(#[trigger] objects[i], x, y) ==> fits_i32(
            objects[i].fighter->0.hp - FIREBALL_DAMAGE,
        )
    &&& fits_i32(blast_reward(objects, x, y, objects.len() as int))
    &&& objects[0].fighter matches Some(fighter) ==> fits_i32(
        fighter.xp + blast_reward(objects, x, y, objects.len() as int),
    )
}

/// The outcome of a fireball scroll: with a tile chosen the fireball
/// bursts there and the scroll is gone; without one the scroll is
/// cancelled.
pub open spec fn fireball_outcome(target: Option<(i32, i32)>, objects: Seq<Object>) -> Outcome {
    match target {
        Some((x, y)) => Outcome {
            result: UseResult::UsedUp,
            objects: blasted(objects, x as int, y as int),
            log: seq![Message::FireballExplodes { radius: FIREBALL_RADIUS }] + blast_log(
                objects,
                x as int,
                y as int,
                objects.len() as int,
            ),
        },
        None => Outcome { result: UseResult::Cancelled, objects, log: Seq::empty() },
    }
}

/// Reads a fireball scroll with the tile chosen for it, if any; see
/// [`fireball_outcome`].
///
/// The blast burns every actor that can fight and is at most
/// [`FIREBALL_RADIUS`] tiles from the chosen tile, and nobody else. The
/// damage ignores defense. The rewards for the monsters killed are added
/// up and credited to the player once, after all have been burnt.
pub fn cast_fireball(target: Option<(i32, i32)>, game: &mut Game, objects: &mut [Object]) -> (result:
    UseResult)
    requires
        old(objects)@.len() >= 1,
        target matches Some((x, y)) ==> fireball_in_range(old(objects)@, x as int, y as int),
    ensures
        result == fireball_outcome(target, old(objects)@).result,
        final(objects)@ == fireball_outcome(target, old(objects)@).objects,
        final(game).messages@ == old(game).messages@ + fireball_outcome(target, old(objects)@).log,
        final(game).map == old(game).map,
        final(game).inventory == old(game).inventory,
        final(game).dungeon_level == old(game).dungeon_level,
        target matches Some((x, y)) ==> forall|i: int|
            1 <= i < old(objects)@.len() ==> (#[trigger] final(objects)@[i]) == (if in_blast(
                old(objects)@[i],
                x as int,
                y as int,
            ) {
                old(objects)@[i].after_damage(FIREBALL_DAMAGE as int)
            } else {
                old(objects)@[i]
            }),
{
    let (x, y) = match target {
        Some(tile_pos) => tile_pos,
        None => {
            assert(game.messages@ + Seq::<Message>::empty() =~= game.messages@);
            return UseResult::Cancelled;
        },
    };
    let ghost before = objects@;
    let ghost tx = x as int;
    let ghost ty = y as int;
    game.messages.add(Message::FireballExplodes { radius: FIREBALL_RADIUS });
    let ghost exploded = game.messages@;

    let mut xp_to_gain: i128 = 0;
    let mut id: usize = 0;
    assert(exploded + Seq::<Message>::empty() =~= exploded);
    while id < objects.len()
        invariant
            id <= objects@.len(),
            objects@.len() == before.len(),
            before.len() >= 1,
            fireball_in_range(before, tx, ty),
            tx == x,
            ty == y,
            forall|j: int| 0 <= j < id ==> (#[trigger] objects@[j]) == burned(before[j], tx, ty),
            forall|j: int| id <= j < before.len() ==> (#[trigger] objects@[j]) == before[j],
            xp_to_gain == blast_reward(before, tx, ty, id as int),
            -(id as int) * 0x8000_0000 <= xp_to_gain <= (id as int) * 0x8000_0000,
            game.messages@ == exploded + blast_log(before, tx, ty, id as int),
            game.map == old(game).map,
            game.inventory == old(game).inventory,
            game.dungeon_level == old(game).dungeon_level,
        decreases objects@.len() - id,
    {
        proof {
            assert((id as int + 1) * 0x8000_0000 == (id as int) * 0x8000_0000 + 0x8000_0000)
                by (nonlinear_arith);
            assert((id as int) * 0x8000_0000 <= 0xFFFF_FFFF_FFFF_FFFF * 0x8000_0000)
                by (nonlinear_arith)
                requires
                    0 <= id <= 0xFFFF_FFFF_FFFF_FFFF,
            ;
        }
        let ghost logged = game.messages@;
        let in_radius = is_within_radius(objects[id].distance_squared(x, y));
        if in_radius && objects[id].fighter.is_some() {
            assert(in_blast(before[id as int], tx, ty));
            game.messages.add(
                Message::FireballBurns { name: objects[id].name.clone(), damage: FIREBALL_DAMAGE },
            );
            match objects[id].take_damage(FIREBALL_DAMAGE, &mut game.messages) {
                Some(xp) => {
                    if id != PLAYER {
                        xp_to_gain = xp_to_gain + xp as i128;
                    }
                },
                None => {},
            }
            assert(game.messages@ =~= logged + burn_log(before[id as int], tx, ty));
        } else {
            assert(logged + burn_log(before[id as int], tx, ty) =~= logged);
        }
        assert(game.messages@ =~= exploded + blast_log(before, tx, ty, id as int + 1));
        id += 1;
    }

    objects[PLAYER].gain_xp(xp_to_gain as i32);
    proof {
        assert(objects@ =~= blasted(before, tx, ty));
        assert(game.messages@ =~= old(game).messages@ + (seq![
            Message::FireballExplodes { radius: FIREBALL_RADIUS },
        ] + blast_log(before, tx, ty, before.len() as int)));
    }
    UseResult::UsedUp
}

/// Whether a squared distance is that of a tile in a fireball's blast.
fn is_within_radius(distance_squared: i128) -> (within: bool)
    ensures
        within == (distance_squared <= FIREBALL_RADIUS * FIREBALL_RADIUS),
{
    distance_squared <= (FIREBALL_RADIUS as i128) * (FIREBALL_RADIUS as i128)
}

/// What using an item needs from the user before it can take effect.
#[derive(Clone, Copy, Debug, PartialEq, Eq, Structural)]
pub enum Aim {
    /// Nothing; the item can be used right away.
    Nothing,
    /// A tile, within `max_range` tiles of the player if a range is given.
    Tile { max_range: Option<i32> },
    /// A monster, within `max_range` tiles of the player if a range is
    /// given.
    Monster { max_range: Option<i32> },
}

/// What the user has chosen for an item to act on.
#[derive(Clone, Copy, Debug, PartialEq, Eq, Structural)]
pub enum Target {
    /// Nothing: no choice was needed, or the choice was cancelled.
    Nothing,
    Tile(i32, i32),
    /// The actor at this index of the registry.
    Monster(usize),
}

impl Target {
    /// The chosen tile, if a tile was chosen.
    pub open spec fn tile(self) -> Option<(i32, i32)> {
        match self {
            Target::Tile(x, y) => Some((x, y)),
            _ => None,
        }
    }

    /// The chosen monster, if a monster was chosen.
    pub open spec fn monster(self) -> Option<usize> {
        match self {
            Target::Monster(id) => Some(id),
            _ => None,
        }
    }
}

/// What an item of each kind needs aimed: confusion and freezing a
/// monster in range, a fireball any tile in view, blinking a tile in
/// range, and the rest nothing.
pub open spec fn aim_of(item: Item) -> Aim {
    match item {
        Item::Confuse => Aim::Monster { max_range: Some(CONFUSE_RANGE) },
        Item::Freeze => Aim::Monster { max_range: Some(FREEZE_RANGE) },
        Item::Fireball => Aim::Tile { max_range: None },
        Item::Blink => Aim::Tile { max_range: Some(BLINK_RADIUS) },
        _ => Aim::Nothing,
    }
}

/// What asking the user to aim an item of the given kind adds to the log.
pub open spec fn prompt_of(item: Item) -> Seq<Message> {
    match item {
        Item::Fireball => seq![Message::FireballPrompt],
        Item::Blink => seq![Message::BlinkPrompt],
        _ => Seq::empty(),
    }
}

/// Opens the use of the item at position `inventory_id`: tells what the
/// user has to aim, after noting the request in the log where the item
/// asks for it. Something that is no item needs nothing aimed.
pub fn begin_use(inventory_id: usize, game: &mut Game) -> (aim: Aim)
    requires
        inventory_id < old(game).inventory@.len(),
    ensures
        aim == (match old(game).inventory@[inventory_id as int].item {
            Some(item) => aim_of(item),
            None => Aim::Nothing,
        }),
        final(game).messages@ == old(game).messages@ + (match old(
            game,
        ).inventory@[inventory_id as int].item {
            Some(item) => prompt_of(item),
            None => Seq::empty(),
        }),
        final(game).map == old(game).map,
        final(game).inventory == old(game).inventory,
        final(game).dungeon_level == old(game).dungeon_level,
{
    assert(game.messages@ + Seq::<Message>::empty() =~= game.messages@);
    match game.inventory[inventory_id].item {
        Some(Item::Confuse) => Aim::Monster { max_range: Some(CONFUSE_RANGE) },
        Some(Item::Freeze) => Aim::Monster { max_range: Some(FREEZE_RANGE) },
        Some(Item::Fireball) => {
            game.messages.add(Message::FireballPrompt);
            assert(game.messages@ =~= old(game).messages@ + seq![Message::FireballPrompt]);
            Aim::Tile { max_range: None }
        },
        Some(Item::Blink) => {
            game.messages.add(Message::BlinkPrompt);
            assert(game.messages@ =~= old(game).messages@ + seq![Message::BlinkPrompt]);
            Aim::Tile { max_range: Some(BLINK_RADIUS) }
        },
        _ => Aim::Nothing,
    }
}

/// The outcome, for the registry and the log, of using an item of the
/// given kind held at position `id` of the inventory.
pub open spec fn item_outcome(
    item: Item,
    id: int,
    target: Target,
    fov: Fov,
    map: Seq<Vec<Tile>>,
    inventory: Seq<Object>,
    objects: Seq<Object>,
) -> Outcome {
    match item {
        Item::Heal => heal_outcome(inventory, objects),
        Item::Lightning => lightning_outcome(fov, objects),
        Item::Confuse => confuse_outcome(target.monster(), objects),
        Item::Fireball => fireball_outcome(target.tile(), objects),
        Item::Blink => blink_outcome(target.tile(), map, objects),
        Item::Freeze => freeze_outcome(target.monster(), objects),
        Item::Sword | Item::Shield => Outcome {
            result: if inventory[id].equipment is Some {
                UseResult::UsedAndKept
            } else {
                UseResult::Cancelled
            },
            objects,
            log: toggle_log(id, inventory),
        },
    }
}

/// The inventory after an item of the given kind held at position `id`
/// has been used with the given result: equipment is put on or taken off,
/// and anything else leaves the inventory when it is used up.
pub open spec fn inventory_after_use(
    item: Item,
    id: int,
    result: UseResult,
    inventory: Seq<Object>,
) -> Seq<Object> {
    match item {
        Item::Sword | Item::Shield => toggled(id, inventory),
        _ => if result == UseResult::UsedUp {
            inventory.remove(id)
        } else {
            inventory
        },
    }
}

/// What the machine's number range and the sizes of the grid and the
/// registry demand of using an item of the given kind.
pub open spec fn use_in_range(
    item: Item,
    target: Target,
    fov: Fov,
    map: Seq<Vec<Tile>>,
    inventory: Seq<Object>,
    objects: Seq<Object>,
) -> bool {
    match item {
        Item::Heal => heal_in_range(inventory, objects),
        Item::Lightning => lightning_in_range(fov, objects),
        Item::Confuse | Item::Freeze => target matches Target::Monster(id) ==> id < objects.len(),
        Item::Fireball => target matches Target::Tile(x, y) ==> fireball_in_range(
            objects,
            x as int,
            y as int,
        ),
        Item::Blink => target matches Target::Tile(x, y) ==> in_map(map, x as int, y as int),
        Item::Sword | Item::Shield => true,
    }
}

/// What the end of a use adds to the log: a note if it was cancelled.
pub open spec fn result_log(result: UseResult) -> Seq<Message> {
    if result == UseResult::Cancelled {
        seq![Message::Cancelled]
    } else {
        Seq::empty()
    }
}

/// Uses the item at position `inventory_id` on the target the user chose
/// for it. The item's kind selects the effect; an effect that is given no
/// target of the kind it needs is cancelled. An item that was used up
/// leaves the inventory, a cancelled use is noted in the log, and
/// equipment stays where it is, put on or taken off. Something that is no
/// item cannot be used, which the log notes too.
pub fn use_item(
    inventory_id: usize,
    target: Target,
    fov: &Fov,
    game: &mut Game,
    objects: &mut [Object],
)
    requires
        inventory_id < old(game).inventory@.len(),
        old(objects)@.len() >= 1,
        old(game).inventory@[inventory_id as int].item matches Some(item) ==> use_in_range(
            item,
            target,
            *fov,
            old(game).map@,
            old(game).inventory@,
            old(objects)@,
        ),
    ensures
        final(game).map == old(game).map,
        final(game).dungeon_level == old(game).dungeon_level,
        old(game).inventory@[inventory_id as int].item is None ==> {
            &&& final(objects)@ == old(objects)@
            &&& final(game).inventory@ == old(game).inventory@
            &&& final(game).messages@ == old(game).messages@.push(
                Message::CannotUse { name: old(game).inventory@[inventory_id as int].name },
            )
        },
        old(game).inventory@[inventory_id as int].item matches Some(item) ==> {
            let outcome = item_outcome(
                item,
                inventory_id as int,
                target,
                *fov,
                old(game).map@,
                old(game).inventory@,
                old(objects)@,
            );
            &&& final(objects)@ == outcome.objects
            &&& final(game).inventory@ == inventory_after_use(
                item,
                inventory_id as int,
                outcome.result,
                old(game).inventory@,
            )
            &&& final(game).messages@ == old(game).messages@ + outcome.log + result_log(
                outcome.result,
            )
        },
{
    match game.inventory[inventory_id].item {
        Some(item) => {
            let monster = match target {
                Target::Monster(id) => Some(id),
                _ => None,
            };
            let tile = match target {
                Target::Tile(x, y) => Some((x, y)),
                _ => None,
            };
            let result = match item {
                Item::Heal => cast_heal(game, objects),
                Item::Lightning => cast_lightning(fov, game, objects),
                Item::Confuse => cast_confuse(monster, game, objects),
                Item::Fireball => cast_fireball(tile, game, objects),
                Item::Blink => cast_blink(tile, game, objects),
                Item::Freeze => cast_freeze(monster, game, objects),
                Item::Sword => toggle_equipment(inventory_id, game),
                Item::Shield => toggle_equipment(inventory_id, game),
            };
            let ghost done = game.messages@;
            match result {
                UseResult::UsedUp => {
                    game.inventory.remove(inventory_id);
                    assert(done + Seq::<Message>::empty() =~= done);
                },
                UseResult::Cancelled => {
                    game.messages.add(Message::Cancelled);
                    assert(game.messages@ =~= done + seq![Message::Cancelled]);
                },
                UseResult::UsedAndKept => {
                    assert(done + Seq::<Message>::empty() =~= done);
                },
            }
        },
        None => {
            game.messages.add(
                Message::CannotUse { name: game.inventory[inventory_id].name.clone() },
            );
        },
    }
}

/// Computes [`kill_reward`].
fn reward_of(target: &Object, damage: i32) -> (reward: i32)
    ensures
        reward == kill_reward(*target, damage as int),
{
    match target.fighter {
        Some(fighter) => if target.alive && fighter.hp as i64 - damage as i64 <= 0 {
            fighter.xp
        } else {
            0
        },
        None => 0,
    }
}

/// Computes [`heal_in_range`].
fn heal_fits(game: &Game, objects: &[Object]) -> (fits: bool)
    requires
        objects@.len() >= 1,
    ensures
        fits == heal_in_range(game.inventory@, objects@),
{
    match objects[PLAYER].fighter {
        Some(fighter) => stat_fits(PLAYER, Stat::MaxHp, objects, game) && (fighter.hp == max_hp(
            PLAYER,
            objects,
            game,
        ) || is_i32(fighter.hp as i128 + HEAL_AMOUNT as i128)),
        None => true,
    }
}

/// Computes [`lightning_in_range`].
fn lightning_fits(fov: &Fov, objects: &[Object]) -> (fits: bool)
    requires
        objects@.len() >= 1,
    ensures
        fits == lightning_in_range(*fov, objects@),
{
    match closest_monster(fov, objects, LIGHTNING_RANGE) {
        Some(id) => {
            let target = &objects[id];
            let hp_fits = match target.fighter {
                Some(fighter) => is_i32(fighter.hp as i128 - LIGHTNING_DAMAGE as i128),
                None => false,
            };
            let xp_fits = match objects[PLAYER].fighter {
                Some(fighter) => is_i32(
                    fighter.xp as i128 + reward_of(target, LIGHTNING_DAMAGE) as i128,
                ),
                None => true,
            };
            hp_fits && xp_fits
        },
        None => true,
    }
}

/// Computes [`fireball_in_range`].
fn fireball_fits(objects: &[Object], x: i32, y: i32) -> (fits: bool)
    requires
        objects@.len() >= 1,
    ensures
        fits == fireball_in_range(objects@, x as int, y as int),
{
    let mut reward: i128 = 0;
    let mut id: usize = 0;
    while id < objects.len()
        invariant
            id <= objects@.len(),
            reward == blast_reward(objects@, x as int, y as int, id as int),
            -(id as int) * 0x8000_0000 <= reward <= (id as int) * 0x8000_0000,
            forall|i: int|
                0 <= i < id && in_blast(#[trigger] objects@[i], x as int, y as int) ==> fits_i32(
                    objects@[i].fighter->0.hp - FIREBALL_DAMAGE,
                ),
        decreases objects@.len() - id,
    {
        proof {
            assert((id as int + 1) * 0x8000_0000 == (id as int) * 0x8000_0000 + 0x8000_0000)
                by (nonlinear_arith);
            assert((id as int) * 0x8000_0000 <= 0xFFFF_FFFF_FFFF_FFFF * 0x8000_0000)
                by (nonlinear_arith)
                requires
                    0 <= id <= 0xFFFF_FFFF_FFFF_FFFF,
            ;
        }
        let object = &objects[id];
        if is_within_radius(object.distance_squared(x, y)) {
            match object.fighter {
                Some(fighter) => {
                    if !is_i32(fighter.hp as i128 - FIREBALL_DAMAGE as i128) {
                        assert(in_blast(objects@[id as int], x as int, y as int));
                        return false;
                    }
                    if id != PLAYER {
                        reward = reward + reward_of(object, FIREBALL_DAMAGE) as i128;
                    }
                },
                None => {},
            }
        }
        id += 1;
    }
    if !is_i32(reward) {
        return false;
    }
    match objects[PLAYER].fighter {
        Some(fighter) => is_i32(fighter.xp as i128 + reward),
        None => true,
    }
}

/// Whether [`use_item`] can be asked to use the item at position
/// `inventory_id` on the given target: the item and the player exist, and
/// the effect keeps to the grid, the registry and the machine's number
/// range; see [`use_in_range`].
pub fn use_fits(inventory_id: usize, target: Target, fov: &Fov, game: &Game, objects: &[Object])
    -> (fits: bool)
    ensures
        fits == (inventory_id < game.inventory@.len() && objects@.len() >= 1 && (
        game.inventory@[inventory_id as int].item matches Some(item) ==> use_in_range(
            item,
            target,
            *fov,
            game.map@,
            game.inventory@,
            objects@,
        ))),
{
    if inventory_id >= game.inventory.len() || objects.len() < 1 {
        return false;
    }
    match game.inventory[inventory_id].item {
        None => true,
        Some(Item::Heal) => heal_fits(game, objects),
        Some(Item::Lightning) => lightning_fits(fov, objects),
        Some(Item::Confuse) | Some(Item::Freeze) => match target {
            Target::Monster(id) => id < objects.len(),
            _ => true,
        },
        Some(Item::Fireball) => match target {
            Target::Tile(x, y) => fireball_fits(objects, x, y),
            _ => true,
        },
        Some(Item::Blink) => match target {
            Target::Tile(x, y) => tile_exists(&game.map, x as i64, y as i64),
            _ => true,
        },
        Some(Item::Sword) | Some(Item::Shield) => true,
    }
}

/// A fireball takes [`FIREBALL_DAMAGE`] hit points, once, off everybody in
/// its blast, the player included, whatever their defense: who had more
/// is left with the rest and lives on as before, and who was alive with
/// that many or fewer is dead.
pub proof fn lemma_blast_burns(objects: Seq<Object>, k: int, x: int, y: int)
    requires
        0 <= k < objects.len(),
        in_blast(objects[k], x, y),
    ensures
        ({
            let before = objects[k];
            let after = blasted(objects, x, y)[k];
            &&& before.fighter->0.hp > FIREBALL_DAMAGE ==> {
                &&& after.fighter is Some
                &&& after.fighter->0.hp == before.fighter->0.hp - FIREBALL_DAMAGE
                &&& after.alive == before.alive
            }
            &&& before.fighter->0.hp <= FIREBALL_DAMAGE && before.alive ==> !after.alive
        }),
{
}

/// A fireball leaves alone whoever is outside its blast or cannot fight,
/// but for the experience the player earns; it moves nobody, and the
/// registry keeps its length.
pub proof fn lemma_blast_spares(objects: Seq<Object>, k: int, x: int, y: int)
    requires
        0 <= k < objects.len(),
    ensures
        ({
            let before = objects[k];
            let after = blasted(objects, x, y)[k];
            &&& blasted(objects, x, y).len() == objects.len()
            &&& after.x == before.x
            &&& after.y == before.y
            &&& !in_blast(before, x, y) && k != PLAYER ==> after == before
            &&& !in_blast(before, x, y) && k == PLAYER ==> after == before.with_xp_gain(
                blast_reward(objects, x, y, objects.len() as int),
            )
        }),
{
}

/// A fireball earns the player nothing for an actor that was dead before
/// it burst, and nothing for the player's own death; a corpse in the
/// blast, which cannot fight, is left as it is.
pub proof fn lemma_blast_ignores_the_dead(objects: Seq<Object>, k: int, x: int, y: int)
    requires
        0 <= k < objects.len(),
        !objects[k].alive || k == PLAYER,
    ensures
        burn_reward(objects, k, x, y) == 0,
        objects[k].fighter is None && k != PLAYER ==> blasted(objects, x, y)[k] == objects[k],
{
}

/// The experience a fireball earns grows, actor by actor, by the worth of
/// each monster in the blast that dies of it, and by nothing else.
pub proof fn lemma_blast_reward_step(objects: Seq<Object>, x: int, y: int, upto: int)
    requires
        0 < upto <= objects.len(),
    ensures
        blast_reward(objects, x, y, upto) == blast_reward(objects, x, y, upto - 1) + (if upto - 1
            != PLAYER && in_blast(objects[upto - 1], x, y) && objects[upto - 1].dies_from(
            FIREBALL_DAMAGE as int,
        ) {
            objects[upto - 1].fighter->0.xp as int
        } else {
            0
        }),
{
}

/// Lightning never strikes the player, an actor that cannot fight or act
/// (such as a corpse), one out of view, or one beyond its range.
pub proof fn lemma_closest_is_a_monster_in_reach(
    objects: Seq<Object>,
    fov: Fov,
    max_range: int,
    id: int,
)
    requires
        closest(objects, fov, max_range) == Some(id),
    ensures
        can_be_struck(objects, fov, id),
        within_range(player_distance(objects, id), max_range),
        is_closest(objects, fov, max_range, id),
{
}

} // verus!
