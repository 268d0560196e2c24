//! What the player does on the map besides using items: walking, hitting
//! and picking things up.

use vstd::prelude::*;
use crate::ai::{can_stumble, move_by, moved_by};
use crate::combat::{attack, attack_fits, attack_in_range, attack_log, objects_after_attack};
use crate::constants::{MAX_MENU_OPTIONS, PLAYER};
use crate::game::Game;
use crate::map::tile_exists;
use crate::messages::Message;
use crate::object::Object;
use crate::targeting::{first_target_at, is_first_target_at, is_target_at, no_target_at};

verus! {

/// What the machine's number range and the grid's size demand of a step
/// of the player by `(dx, dy)`: the destination is a tile of the grid, and
/// if somebody stands there to be hit, the hit can be dealt.
pub open spec fn step_in_range(dx: int, dy: int, game: Game, objects: Seq<Object>) -> bool {
    let player = objects[0];
    &&& can_stumble(game.map@, player.x as int, player.y as int, dx, dy)
    &&& forall|target: int| #[trigger]
        is_first_target_at(objects, target, player.x + dx, player.y + dy) ==> attack_in_range(
            0,
            target,
            objects,
            game.inventory@,
        )
}

/// Whether [`player_move_or_attack`] can be asked for the step: there is
/// a player, and [`step_in_range`] holds.
pub fn step_fits(dx: i32, dy: i32, game: &Game, objects: &[Object]) -> (fits: bool)
    ensures
        fits == (objects@.len() >= 1 && step_in_range(dx as int, dy as int, *game, objects@)),
{
    if objects.len() < 1 {
        return false;
    }
    let x = objects[PLAYER].x as i64 + dx as i64;
    let y = objects[PLAYER].y as i64 + dy as i64;
    if x > 0x7fff_ffff || y > 0x7fff_ffff || !tile_exists(&game.map, x, y) {
        return false;
    }
    match first_target_at(objects, x as i32, y as i32) {
        Some(target) => {
            let fits = attack_fits(PLAYER, target, objects, game);
            proof {
                assert forall|other: int| #[trigger]
                    is_first_target_at(objects@, other, x as int, y as int) implies other
                    == target by {
                    lemma_first_target_unique(objects@, target as int, other, x as int, y as int);
                }
                assert(is_first_target_at(objects@, target as int, x as int, y as int));
            }
            fits
        },
        None => {
            proof {
                assert forall|other: int| #[trigger]
                    is_first_target_at(objects@, other, x as int, y as int) implies false by {
                    assert(is_target_at(objects@, other, x as int, y as int));
                }
            }
            true
        },
    }
}

/// There is at most one first target on a tile.
pub proof fn lemma_first_target_unique(objects: Seq<Object>, a: int, b: int, x: int, y: int)
    requires
        is_first_target_at(objects, a, x, y),
        is_first_target_at(objects, b, x, y),
    ensures
        a == b,
{
    if a < b {
        assert(is_target_at(objects, a, x, y));
    } else if b < a {
        assert(is_target_at(objects, b, x, y));
    }
}

/// A step of the player by `(dx, dy)`. If somebody who can fight stands on
/// the destination, the player hits the first such actor of the registry;
/// otherwise the player moves there unless the tile is blocked.
pub fn player_move_or_attack(dx: i32, dy: i32, game: &mut Game, objects: &mut [Object])
    requires
        old(objects)@.len() >= 1,
        step_in_range(dx as int, dy as int, *old(game), old(objects)@),
    ensures
        final(game).map == old(game).map,
        final(game).inventory == old(game).inventory,
        final(game).dungeon_level == old(game).dungeon_level,
        no_target_at(old(objects)@, old(objects)@[0].x + dx, old(objects)@[0].y + dy) ==> {
            &&& final(objects)@ == moved_by(0, dx as int, dy as int, old(game).map@, old(objects)@)
            &&& final(game).messages@ == old(game).messages@
        },
        forall|target: int| #[trigger]
            is_first_target_at(
                old(objects)@,
                target,
                old(objects)@[0].x + dx,
                old(objects)@[0].y + dy,
            ) ==> {
                &&& final(objects)@ == objects_after_attack(
                    0,
                    target,
                    old(objects)@,
                    old(game).inventory@,
                )
                &&& final(game).messages@ == old(game).messages@ + attack_log(
                    0,
                    target,
                    old(objects)@,
                    old(game).inventory@,
                )
            },
{
    let x = objects[PLAYER].x + dx;
    let y = objects[PLAYER].y + dy;
    match first_target_at(objects, x, y) {
        Some(target_id) => {
            proof {
                assert forall|other: int| #[trigger]
                    is_first_target_at(objects@, other, x as int, y as int) implies other
                    == target_id by {
                    lemma_first_target_unique(objects@, target_id as int, other, x as int, y as int);
                }
                assert(is_target_at(objects@, target_id as int, x as int, y as int));
            }
            attack(PLAYER, target_id, objects, game);
        },
        None => {
            proof {
                assert forall|other: int| #[trigger]
                    is_first_target_at(objects@, other, x as int, y as int) implies false by {
                    assert(is_target_at(objects@, other, x as int, y as int));
                }
            }
            move_by(PLAYER, dx, dy, &game.map, objects);
        },
    }
}

/// Moves the actor at index `object_id` from the level into the
/// inventory, where it comes last; its place in the registry is taken by
/// the last actor. With [`MAX_MENU_OPTIONS`] items carried already there
/// is no room, and the actor stays where it is. The log notes either.
pub fn pick_item_up(object_id: usize, game: &mut Game, objects: &mut Vec<Object>)
    requires
        object_id != PLAYER,
        object_id < old(objects)@.len(),
    ensures
        final(game).map == old(game).map,
        final(game).dungeon_level == old(game).dungeon_level,
        old(game).inventory@.len() >= MAX_MENU_OPTIONS ==> {
            &&& final(objects)@ == old(objects)@
            &&& final(game).inventory@ == old(game).inventory@
            &&& final(game).messages@ == old(game).messages@.push(
                Message::InventoryFull { name: old(objects)@[object_id as int].name },
            )
        },
        old(game).inventory@.len() < MAX_MENU_OPTIONS ==> {
            &&& final(objects)@ == old(objects)@.update(
                object_id as int,
                old(objects)@.last(),
            ).drop_last()
            &&& final(game).inventory@ == old(game).inventory@.push(
                old(objects)@[object_id as int],
            )
            &&& final(game).messages@ == old(game).messages@.push(
                Message::PickedUp { name: old(objects)@[object_id as int].name },
            )
        },
{
    if game.inventory.len() >= MAX_MENU_OPTIONS {
        game.messages.add(Message::InventoryFull { name: objects[object_id].name.clone() });
    } else {
        let item = objects.swap_remove(object_id);
        game.messages.add(Message::PickedUp { name: item.name.clone() });
        game.inventory.push(item);
    }
}

} // verus!
