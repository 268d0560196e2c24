//! Monster behaviour.
//!
//! Every living monster acts once per player turn. A plain monster hunts
//! the player while it is in view; a confused one stumbles about at random
//! and a frozen one does nothing, each for a number of turns, after which
//! the behaviour it had before is put back.

use vstd::prelude::*;
use crate::combat::{
    attack, attack_fits, attack_in_range, attack_log, fits_i32, objects_after_attack,
};
use crate::constants::PLAYER;
use crate::game::{Fov, Game};
use crate::map::{blocked_at, in_map, is_blocked, occupied, tile_exists, Tile, TileMap};
use crate::messages::Message;
use crate::object::{dist_sq, Ai, Object};
use crate::random::random_range;

verus! {

/// The registry after the actor at index `id` has tried to move by
/// `(dx, dy)`: it has moved if nothing blocks the destination, and nothing
/// has changed otherwise.
pub open spec fn moved_by(id: int, dx: int, dy: int, map: Seq<Vec<Tile>>, objects: Seq<Object>)
    -> Seq<Object> {
    let object = objects[id];
    if blocked_at(map, objects, object.x + dx, object.y + dy) {
        objects
    } else {
        objects.update(
            id,
            Object { x: (object.x + dx) as i32, y: (object.y + dy) as i32, ..object },
        )
    }
}

/// Moves the actor at index `id` by `(dx, dy)` unless the destination is
/// blocked, in which case nothing happens.
pub fn move_by(id: usize, dx: i32, dy: i32, map: &TileMap, objects: &mut [Object])
    requires
        id < old(objects)@.len(),
        fits_i32(old(objects)@[id as int].x + dx),
        fits_i32(old(objects)@[id as int].y + dy),
        in_map(map@, old(objects)@[id as int].x + dx, old(objects)@[id as int].y + dy),
    ensures
        final(objects)@ == moved_by(id as int, dx as int, dy as int, map@, old(objects)@),
{
    let (x, y) = objects[id].pos();
    if !is_blocked(x + dx, y + dy, map, objects) {
        objects[id].set_pos(x + dx, y + dy);
    }
}

/// One axis of the step towards a target that lies `along` tiles away on
/// this axis and `across` tiles away on the other: the direction to the
/// target rounded to the nearest of -1, 0 and 1. The step is non-zero
/// exactly when the direction is at most 60 degrees off this axis.
pub open spec fn step_along(along: int, across: int) -> int {
    if along > 0 && 3 * along * along >= across * across {
        1
    } else if along < 0 && 3 * along * along >= across * across {
        -1
    } else {
        0
    }
}

/// The step an actor at `(x, y)` takes towards `(target_x, target_y)`.
pub open spec fn step_towards(x: int, y: int, target_x: int, target_y: int) -> (int, int) {
    (step_along(target_x - x, target_y - y), step_along(target_y - y, target_x - x))
}

/// Computes [`step_along`].
fn axis_step(along: i32, across: i32, from: i32, other_from: i32) -> (step: i32)
    ensures
        step == step_along(along as int - from as int, across as int - other_from as int),
        -1 <= step <= 1,
{
    let a: i128 = along as i128 - from as i128;
    let c: i128 = across as i128 - other_from as i128;
    assert(0 <= a * a <= 0x1_0000_0000 * 0x1_0000_0000) by (nonlinear_arith)
        requires
            -0x1_0000_0000 <= a <= 0x1_0000_0000,
    ;
    assert(0 <= c * c <= 0x1_0000_0000 * 0x1_0000_0000) by (nonlinear_arith)
        requires
            -0x1_0000_0000 <= c <= 0x1_0000_0000,
    ;
    assert(3 * a * a == 3 * (a * a)) by (nonlinear_arith);
    let near = 3 * (a * a) >= c * c;
    if a > 0 && near {
        1
    } else if a < 0 && near {
        -1
    } else {
        0
    }
}

/// A step towards a target that is somewhere else leads somewhere else and
/// brings the actor strictly closer.
pub proof fn lemma_step_towards_approaches(x: int, y: int, target_x: int, target_y: int)
    requires
        (x, y) != (target_x, target_y),
    ensures
        ({
            let step = step_towards(x, y, target_x, target_y);
            &&& step != (0int, 0int)
            &&& -1 <= step.0 <= 1
            &&& -1 <= step.1 <= 1
            &&& dist_sq(x + step.0, y + step.1, target_x, target_y) < dist_sq(
                x,
                y,
                target_x,
                target_y,
            )
        }),
{
    let dx = target_x - x;
    let dy = target_y - y;
    let step = step_towards(x, y, target_x, target_y);
    assert(step != (0int, 0int)) by (nonlinear_arith)
        requires
            dx != 0 || dy != 0,
            step.0 == step_along(dx, dy),
            step.1 == step_along(dy, dx),
    {
        if dx * dx >= dy * dy {
            assert(3 * dx * dx >= dy * dy);
            assert(dx != 0);
        } else {
            assert(3 * dy * dy >= dx * dx);
            assert(dy != 0);
        }
    }
    assert((dx - step.0) * (dx - step.0) + (dy - step.1) * (dy - step.1) < dx * dx + dy * dy)
        by (nonlinear_arith)
        requires
            step != (0int, 0int),
            step.0 == 1 ==> dx > 0,
            step.0 == -1 ==> dx < 0,
            step.1 == 1 ==> dy > 0,
            step.1 == -1 ==> dy < 0,
            step.0 == 1 || step.0 == -1 || step.0 == 0,
            step.1 == 1 || step.1 == -1 || step.1 == 0,
    ;
    assert(dist_sq(x + step.0, y + step.1, target_x, target_y) == (dx - step.0) * (dx - step.0) + (
    dy - step.1) * (dy - step.1)) by (nonlinear_arith)
        requires
            dx == target_x - x,
            dy == target_y - y,
    ;
    assert(dist_sq(x, y, target_x, target_y) == dx * dx + dy * dy) by (nonlinear_arith)
        requires
            dx == target_x - x,
            dy == target_y - y,
    ;
}

/// The registry after the actor at index `id` has tried to take one step
/// towards `(target_x, target_y)`.
pub open spec fn moved_towards(
    id: int,
    target_x: int,
    target_y: int,
    map: Seq<Vec<Tile>>,
    objects: Seq<Object>,
) -> Seq<Object> {
    let step = step_towards(objects[id].x as int, objects[id].y as int, target_x, target_y);
    moved_by(id, step.0, step.1, map, objects)
}

/// Lets the actor at index `id` take one step in the direction of
/// `(target_x, target_y)`; if the tile in that direction is blocked,
/// nothing happens.
pub fn move_towards(id: usize, target_x: i32, target_y: i32, map: &TileMap, objects: &mut [Object])
    requires
        id < old(objects)@.len(),
        ({
            let object = old(objects)@[id as int];
            let step = step_towards(
                object.x as int,
                object.y as int,
                target_x as int,
                target_y as int,
            );
            in_map(map@, object.x + step.0, object.y + step.1)
        }),
    ensures
        final(objects)@ == moved_towards(
            id as int,
            target_x as int,
            target_y as int,
            map@,
            old(objects)@,
        ),
{
    let (x, y) = objects[id].pos();
    let dx = axis_step(target_x, target_y, x, y);
    let dy = axis_step(target_y, target_x, y, x);
    proof {
        // the destination is a tile, so it is not negative, and a step
        // upwards is only taken towards a target that lies further up
        assert(in_map(map@, x + dx, y + dy));
        assert(x + dx <= i32::MAX) by {
            if dx == 1 {
                assert(target_x as int - x as int > 0);
            }
        }
        assert(y + dy <= i32::MAX) by {
            if dy == 1 {
                assert(target_y as int - y as int > 0);
            }
        }
    }
    move_by(id, dx, dy, map, objects);
}

/// Whether two actors stand on the same tile or on neighbouring ones,
/// diagonals included.
pub open spec fn near(a: Object, b: Object) -> bool {
    -1 <= a.x - b.x <= 1 && -1 <= a.y - b.y <= 1
}

/// Whether two actors stand on the same tile or on neighbouring ones.
pub fn is_near(a: &Object, b: &Object) -> (close: bool)
    ensures
        close == near(*a, *b),
{
    let dx: i64 = a.x as i64 - b.x as i64;
    let dy: i64 = a.y as i64 - b.y as i64;
    -1 <= dx && dx <= 1 && -1 <= dy && dy <= 1
}

impl Ai {
    /// The behaviour a monster has after one more turn has gone by: a plain
    /// behaviour stays; an effect with more than one turn left has one
    /// turn less; an effect on its last turn gives way to the behaviour it
    /// was laid over.
    pub open spec fn after_turn(self) -> Ai {
        match self {
            Ai::Basic => Ai::Basic,
            Ai::Confused { previous_ai, num_turns } => if num_turns > 1 {
                Ai::Confused { previous_ai, num_turns: (num_turns - 1) as i32 }
            } else {
                *previous_ai
            },
            Ai::Frozen { previous_ai, num_turns } => if num_turns > 1 {
                Ai::Frozen { previous_ai, num_turns: (num_turns - 1) as i32 }
            } else {
                *previous_ai
            },
        }
    }

    /// The behaviour after `turns` more turns.
    pub open spec fn after_turns(self, turns: nat) -> Ai
        decreases turns,
    {
        if turns == 0 {
            self
        } else {
            self.after_turns((turns - 1) as nat).after_turn()
        }
    }
}

/// The registry after a hunting monster at index `id` has acted: nothing
/// happens while the monster is out of the player's view; in view, it
/// attacks the player if it stands next to them and otherwise tries to
/// take one step towards them.
pub open spec fn hunted(
    id: int,
    fov: Fov,
    map: Seq<Vec<Tile>>,
    inventory: Seq<Object>,
    objects: Seq<Object>,
) -> Seq<Object> {
    let monster = objects[id];
    let player = objects[PLAYER as int];
    if !fov.sees(monster.x as int, monster.y as int) {
        objects
    } else if near(monster, player) {
        objects_after_attack(id, PLAYER as int, objects, inventory)
    } else {
        moved_towards(id, player.x as int, player.y as int, map, objects)
    }
}

/// What a hunting monster's turn adds to the log.
pub open spec fn hunt_log(id: int, fov: Fov, inventory: Seq<Object>, objects: Seq<Object>) -> Seq<
    Message,
> {
    let monster = objects[id];
    let player = objects[PLAYER as int];
    if fov.sees(monster.x as int, monster.y as int) && near(monster, player) {
        attack_log(id, PLAYER as int, objects, inventory)
    } else {
        Seq::empty()
    }
}

/// What the machine's number range and the grid's size demand of a
/// hunting monster's turn.
pub open spec fn hunt_in_range(
    id: int,
    fov: Fov,
    map: Seq<Vec<Tile>>,
    inventory: Seq<Object>,
    objects: Seq<Object>,
) -> bool {
    let monster = objects[id];
    let player = objects[PLAYER as int];
    fov.sees(monster.x as int, monster.y as int) ==> if near(monster, player) {
        attack_in_range(id, PLAYER as int, objects, inventory)
    } else {
        let step = step_towards(
            monster.x as int,
            monster.y as int,
            player.x as int,
            player.y as int,
        );
        in_map(map, monster.x + step.0, monster.y + step.1)
    }
}

/// The turn of a hunting monster; see [`hunted`]. The monster hunts on.
pub fn ai_basic(monster_id: usize, fov: &Fov, game: &mut Game, objects: &mut [Object]) -> (ai: Ai)
    requires
        monster_id != PLAYER,
        monster_id < old(objects)@.len(),
        hunt_in_range(monster_id as int, *fov, old(game).map@, old(game).inventory@, old(objects)@),
    ensures
        ai == Ai::Basic,
        final(objects)@ == hunted(
            monster_id as int,
            *fov,
            old(game).map@,
            old(game).inventory@,
            old(objects)@,
        ),
        final(game).messages@ == old(game).messages@ + hunt_log(
            monster_id as int,
            *fov,
            old(game).inventory@,
            old(objects)@,
        ),
        final(game).map == old(game).map,
        final(game).inventory == old(game).inventory,
        final(game).dungeon_level == old(game).dungeon_level,
{
    let (monster_x, monster_y) = objects[monster_id].pos();
    if fov.is_in_fov(monster_x, monster_y) {
        if !is_near(&objects[monster_id], &objects[PLAYER]) {
            let (player_x, player_y) = objects[PLAYER].pos();
            move_towards(monster_id, player_x, player_y, &game.map, objects);
            assert(game.messages@ + Seq::<Message>::empty() =~= game.messages@);
        } else {
            attack(monster_id, PLAYER, objects, game);
        }
    } else {
        assert(game.messages@ + Seq::<Message>::empty() =~= game.messages@);
    }
    Ai::Basic
}

/// The turn of a confused monster. With turns left it tries to move by
/// `(dx, dy)`, the direction drawn for it, and a blocked destination keeps
/// it where it is. When that was its last turn, or none was left to begin
/// with, the behaviour it had before comes back and the log says so.
pub fn ai_confused(
    monster_id: usize,
    dx: i32,
    dy: i32,
    game: &mut Game,
    objects: &mut [Object],
    previous_ai: Box<Ai>,
    num_turns: i32,
) -> (ai: Ai)
    requires
        monster_id < old(objects)@.len(),
        num_turns > 0 ==> {
            &&& fits_i32(old(objects)@[monster_id as int].x + dx)
            &&& fits_i32(old(objects)@[monster_id as int].y + dy)
            &&& in_map(
                old(game).map@,
                old(objects)@[monster_id as int].x + dx,
                old(objects)@[monster_id as int].y + dy,
            )
        },
    ensures
        ai == (Ai::Confused { previous_ai, num_turns }).after_turn(),
        final(objects)@ == (if num_turns > 0 {
            moved_by(monster_id as int, dx as int, dy as int, old(game).map@, old(objects)@)
        } else {
            old(objects)@
        }),
        final(game).messages@ == (if num_turns > 1 {
            old(game).messages@
        } else {
            old(game).messages@.push(
                Message::NoLongerConfused { name: old(objects)@[monster_id as int].name },
            )
        }),
        final(game).map == old(game).map,
        final(game).inventory == old(game).inventory,
        final(game).dungeon_level == old(game).dungeon_level,
{
    if num_turns > 0 {
        move_by(monster_id, dx, dy, &game.map, objects);
    }
    if num_turns > 1 {
        Ai::Confused { previous_ai, num_turns: num_turns - 1 }
    } else {
        game.messages.add(Message::NoLongerConfused { name: objects[monster_id].name.clone() });
        *previous_ai
    }
}

/// The turn of a frozen monster: it does nothing. When that was its last
/// turn, or none was left to begin with, the behaviour it had before comes
/// back and the log says so.
pub fn ai_frozen(
    monster_id: usize,
    game: &mut Game,
    objects: &[Object],
    previous_ai: Box<Ai>,
    num_turns: i32,
) -> (ai: Ai)
    requires
        monster_id < objects@.len(),
    ensures
        ai == (Ai::Frozen { previous_ai, num_turns }).after_turn(),
        final(game).messages@ == (if num_turns > 1 {
            old(game).messages@
        } else {
            old(game).messages@.push(
                Message::NoLongerFrozen { name: objects@[monster_id as int].name },
            )
        }),
        final(game).map == old(game).map,
        final(game).inventory == old(game).inventory,
        final(game).dungeon_level == old(game).dungeon_level,
{
    if num_turns > 1 {
        Ai::Frozen { previous_ai, num_turns: num_turns - 1 }
    } else {
        game.messages.add(Message::NoLongerFrozen { name: objects[monster_id].name.clone() });
        *previous_ai
    }
}

/// Whether the actor takes turns: it is alive and has a behaviour.
pub open spec fn takes_turns(object: Object) -> bool {
    object.alive && object.ai is Some
}

/// The registry after the monster at index `id` has acted according to
/// its behaviour, the behaviour itself left as it was. `(dx, dy)` is the
/// direction drawn for a confused monster.
pub open spec fn acted(
    id: int,
    dx: int,
    dy: int,
    fov: Fov,
    map: Seq<Vec<Tile>>,
    inventory: Seq<Object>,
    objects: Seq<Object>,
) -> Seq<Object> {
    match objects[id].ai {
        Some(Ai::Basic) => hunted(id, fov, map, inventory, objects),
        Some(Ai::Confused { num_turns, .. }) => if num_turns > 0 {
            moved_by(id, dx, dy, map, objects)
        } else {
            objects
        },
        _ => objects,
    }
}

/// The registry after the turn of the monster at index `id`: it has acted
/// and its behaviour has moved on by one turn. An actor that is dead or
/// has no behaviour is skipped.
pub open spec fn after_ai_turn(
    id: int,
    dx: int,
    dy: int,
    fov: Fov,
    map: Seq<Vec<Tile>>,
    inventory: Seq<Object>,
    objects: Seq<Object>,
) -> Seq<Object> {
    if takes_turns(objects[id]) {
        let acted = acted(id, dx, dy, fov, map, inventory, objects);
        acted.update(id, Object { ai: Some(objects[id].ai->0.after_turn()), ..acted[id] })
    } else {
        objects
    }
}

/// What the turn of the monster at index `id` adds to the log.
pub open spec fn ai_turn_log(id: int, fov: Fov, inventory: Seq<Object>, objects: Seq<Object>)
    -> Seq<Message> {
    if takes_turns(objects[id]) {
        match objects[id].ai->0 {
            Ai::Basic => hunt_log(id, fov, inventory, objects),
            Ai::Confused { num_turns, .. } => if num_turns > 1 {
                Seq::empty()
            } else {
                seq![Message::NoLongerConfused { name: objects[id].name }]
            },
            Ai::Frozen { num_turns, .. } => if num_turns > 1 {
                Seq::empty()
            } else {
                seq![Message::NoLongerFrozen { name: objects[id].name }]
            },
        }
    } else {
        Seq::empty()
    }
}

/// What the machine's number range and the grid's size demand of the turn
/// of the monster at index `id`, given the direction drawn for it.
pub open spec fn ai_turn_in_range(
    id: int,
    dx: int,
    dy: int,
    fov: Fov,
    map: Seq<Vec<Tile>>,
    inventory: Seq<Object>,
    objects: Seq<Object>,
) -> bool {
    takes_turns(objects[id]) ==> match objects[id].ai->0 {
        Ai::Basic => hunt_in_range(id, fov, map, inventory, objects),
        Ai::Confused { num_turns, .. } => num_turns > 0 ==> {
            &&& fits_i32(objects[id].x + dx)
            &&& fits_i32(objects[id].y + dy)
            &&& in_map(map, objects[id].x + dx, objects[id].y + dy)
        },
        Ai::Frozen { .. } => true,
    }
}

/// Whether a tile is occupied does not depend on anybody's behaviour.
proof fn lemma_blocked_ignores_ai(
    map: Seq<Vec<Tile>>,
    objects: Seq<Object>,
    id: int,
    ai: Option<Ai>,
    x: int,
    y: int,
)
    requires
        0 <= id < objects.len(),
    ensures
        blocked_at(map, objects.update(id, Object { ai, ..objects[id] }), x, y) == blocked_at(
            map,
            objects,
            x,
            y,
        ),
{
    let changed = objects.update(id, Object { ai, ..objects[id] });
    if occupied(objects, x, y) {
        let i = choose|i: int|
            0 <= i < objects.len() && (#[trigger] objects[i]).blocks && objects[i].is_at(x, y);
        assert(changed[i].blocks && changed[i].is_at(x, y));
    }
    if occupied(changed, x, y) {
        let i = choose|i: int|
            0 <= i < changed.len() && (#[trigger] changed[i]).blocks && changed[i].is_at(x, y);
        assert(objects[i].blocks && objects[i].is_at(x, y));
    }
}

/// The turn of the monster at index `monster_id`, with `(dx, dy)` as the
/// direction drawn in case it is confused. An actor that is dead or has no
/// behaviour is skipped. Otherwise the monster acts as its behaviour says
/// and the behaviour moves on by one turn; see [`Ai::after_turn`].
///
/// While it lasts, freezing keeps a monster where it is, and confusion
/// moves it to the drawn tile or, if that tile is blocked, nowhere.
pub fn ai_turn(
    monster_id: usize,
    dx: i32,
    dy: i32,
    fov: &Fov,
    game: &mut Game,
    objects: &mut [Object],
)
    requires
        monster_id != PLAYER,
        monster_id < old(objects)@.len(),
        ai_turn_in_range(
            monster_id as int,
            dx as int,
            dy as int,
            *fov,
            old(game).map@,
            old(game).inventory@,
            old(objects)@,
        ),
    ensures
        final(objects)@ == after_ai_turn(
            monster_id as int,
            dx as int,
            dy as int,
            *fov,
            old(game).map@,
            old(game).inventory@,
            old(objects)@,
        ),
        final(game).messages@ == old(game).messages@ + ai_turn_log(
            monster_id as int,
            *fov,
            old(game).inventory@,
            old(objects)@,
        ),
        final(game).map == old(game).map,
        final(game).inventory == old(game).inventory,
        final(game).dungeon_level == old(game).dungeon_level,
{
    let ghost id = monster_id as int;
    let ghost before = objects@;
    let ghost log = game.messages@;
    assert(log + Seq::<Message>::empty() =~= log);
    if !objects[monster_id].alive {
        return ;
    }
    match objects[monster_id].ai.take() {
        Some(ai) => {
            let ghost idle = objects@;
            assert(idle == before.update(id, Object { ai: None, ..before[id] }));
            let new_ai = match ai {
                Ai::Basic => {
                    proof {
                        let monster = before[id];
                        let player = before[PLAYER as int];
                        let step = step_towards(
                            monster.x as int,
                            monster.y as int,
                            player.x as int,
                            player.y as int,
                        );
                        lemma_blocked_ignores_ai(
                            game.map@,
                            before,
                            id,
                            None,
                            monster.x + step.0,
                            monster.y + step.1,
                        );
                    }
                    ai_basic(monster_id, fov, game, objects)
                },
                Ai::Confused { previous_ai, num_turns } => {
                    proof {
                        lemma_blocked_ignores_ai(
                            game.map@,
                            before,
                            id,
                            None,
                            before[id].x + dx,
                            before[id].y + dy,
                        );
                    }
                    ai_confused(monster_id, dx, dy, game, objects, previous_ai, num_turns)
                },
                Ai::Frozen { previous_ai, num_turns } => ai_frozen(
                    monster_id,
                    game,
                    objects,
                    previous_ai,
                    num_turns,
                ),
            };
            objects[monster_id].ai = Some(new_ai);
            assert(game.messages@ =~= log + ai_turn_log(id, *fov, game.inventory@, before));
            assert(objects@ =~= after_ai_turn(
                id,
                dx as int,
                dy as int,
                *fov,
                game.map@,
                game.inventory@,
                before,
            ));
        },
        None => {
            assert(objects@ =~= before);
        },
    }
}

/// Whether `(dx, dy)` leads from a tile to one of its eight neighbours.
pub open spec fn is_neighbour_step(dx: int, dy: int) -> bool {
    -1 <= dx <= 1 && -1 <= dy <= 1 && (dx != 0 || dy != 0)
}

/// The eight steps to a neighbouring tile, row by row.
pub open spec fn neighbour_step(index: int) -> (int, int) {
    if index == 0 {
        (-1, -1)
    } else if index == 1 {
        (0, -1)
    } else if index == 2 {
        (1, -1)
    } else if index == 3 {
        (-1, 0)
    } else if index == 4 {
        (1, 0)
    } else if index == 5 {
        (-1, 1)
    } else if index == 6 {
        (0, 1)
    } else {
        (1, 1)
    }
}

/// Number of neighbours of a tile.
pub const NEIGHBOURS: i32 = 8;

/// The step to the neighbour with the given index; see
/// [`neighbour_step`].
pub fn neighbour(index: i32) -> (step: (i32, i32))
    requires
        0 <= index < NEIGHBOURS,
    ensures
        (step.0 as int, step.1 as int) == neighbour_step(index as int),
        is_neighbour_step(step.0 as int, step.1 as int),
{
    if index == 0 {
        (-1, -1)
    } else if index == 1 {
        (0, -1)
    } else if index == 2 {
        (1, -1)
    } else if index == 3 {
        (-1, 0)
    } else if index == 4 {
        (1, 0)
    } else if index == 5 {
        (-1, 1)
    } else if index == 6 {
        (0, 1)
    } else {
        (1, 1)
    }
}

/// The turn of the monster at index `monster_id`. A confused monster
/// stumbles towards one of the eight neighbouring tiles, drawn at random;
/// apart from that draw the turn is that of [`ai_turn`].
pub fn ai_take_turn(monster_id: usize, fov: &Fov, game: &mut Game, objects: &mut [Object])
    requires
        monster_id != PLAYER,
        monster_id < old(objects)@.len(),
        ai_turn_always_in_range(
            monster_id as int,
            *fov,
            old(game).map@,
            old(game).inventory@,
            old(objects)@,
        ),
    ensures
        exists|dx: int, dy: int|
            is_neighbour_step(dx, dy) && final(objects)@ == #[trigger] after_ai_turn(
                monster_id as int,
                dx,
                dy,
                *fov,
                old(game).map@,
                old(game).inventory@,
                old(objects)@,
            ),
        final(game).messages@ == old(game).messages@ + ai_turn_log(
            monster_id as int,
            *fov,
            old(game).inventory@,
            old(objects)@,
        ),
        final(game).map == old(game).map,
        final(game).inventory == old(game).inventory,
        final(game).dungeon_level == old(game).dungeon_level,
{
    let confused = match &objects[monster_id].ai {
        Some(Ai::Confused { .. }) => true,
        _ => false,
    };
    let (dx, dy) = if confused {
        neighbour(random_range(0, NEIGHBOURS))
    } else {
        (1, 0)
    };
    assert(ai_turn_in_range(
        monster_id as int,
        dx as int,
        dy as int,
        *fov,
        game.map@,
        game.inventory@,
        objects@,
    ));
    ai_turn(monster_id, dx, dy, fov, game, objects);
}

/// Confusion laid over a behaviour for `turns` turns is still there, with
/// correspondingly fewer turns left, after every smaller number of turns,
/// and after exactly `turns` turns the behaviour is back, unchanged.
pub proof fn lemma_confusion_wears_off(previous: Ai, turns: i32, elapsed: nat)
    requires
        turns >= 1,
        elapsed <= turns,
    ensures
        (Ai::Confused { previous_ai: Box::new(previous), num_turns: turns }).after_turns(elapsed)
            == (if elapsed == turns {
            previous
        } else {
            Ai::Confused { previous_ai: Box::new(previous), num_turns: (turns - elapsed) as i32 }
        }),
    decreases elapsed,
{
    if elapsed > 0 {
        lemma_confusion_wears_off(previous, turns, (elapsed - 1) as nat);
    }
}

/// Freezing laid over a behaviour for `turns` turns is still there, with
/// correspondingly fewer turns left, after every smaller number of turns,
/// and after exactly `turns` turns the behaviour is back, unchanged.
pub proof fn lemma_freezing_wears_off(previous: Ai, turns: i32, elapsed: nat)
    requires
        turns >= 1,
        elapsed <= turns,
    ensures
        (Ai::Frozen { previous_ai: Box::new(previous), num_turns: turns }).after_turns(elapsed)
            == (if elapsed == turns {
            previous
        } else {
            Ai::Frozen { previous_ai: Box::new(previous), num_turns: (turns - elapsed) as i32 }
        }),
    decreases elapsed,
{
    if elapsed > 0 {
        lemma_freezing_wears_off(previous, turns, (elapsed - 1) as nat);
    }
}

/// A behaviour in which no effect wraps another stays that way from turn
/// to turn.
pub proof fn lemma_turn_keeps_well_formed(ai: Ai)
    requires
        ai.well_formed(),
    ensures
        ai.after_turn().well_formed(),
{
}

/// The turn of a frozen monster changes nothing in the registry but the
/// monster's behaviour; in particular the monster stays where it is.
pub proof fn lemma_frozen_stays(
    id: int,
    dx: int,
    dy: int,
    fov: Fov,
    map: Seq<Vec<Tile>>,
    inventory: Seq<Object>,
    objects: Seq<Object>,
)
    requires
        0 <= id < objects.len(),
        objects[id].ai matches Some(Ai::Frozen { .. }),
    ensures
        ({
            let after = after_ai_turn(id, dx, dy, fov, map, inventory, objects);
            &&& after.len() == objects.len()
            &&& after[id].x == objects[id].x
            &&& after[id].y == objects[id].y
            &&& forall|other: int| 0 <= other < objects.len() && other != id ==> after[other] == objects[other]
        }),
{
}

/// The turn of a living confused monster with turns left takes it to the
/// tile in the drawn direction if nothing blocks that tile, and leaves it
/// where it is if something does. A free neighbouring tile is a change of
/// position. Nobody else moves.
pub proof fn lemma_confused_stumbles(
    id: int,
    dx: int,
    dy: int,
    fov: Fov,
    map: Seq<Vec<Tile>>,
    inventory: Seq<Object>,
    objects: Seq<Object>,
)
    requires
        0 <= id < objects.len(),
        objects[id].alive,
        objects[id].ai matches Some(Ai::Confused { num_turns, .. }) && num_turns > 0,
        fits_i32(objects[id].x + dx),
        fits_i32(objects[id].y + dy),
    ensures
        ({
            let after = after_ai_turn(id, dx, dy, fov, map, inventory, objects);
            let blocked = blocked_at(map, objects, objects[id].x + dx, objects[id].y + dy);
            &&& after.len() == objects.len()
            &&& blocked ==> after[id].x == objects[id].x && after[id].y == objects[id].y
            &&& !blocked ==> after[id].x == objects[id].x + dx && after[id].y == objects[id].y + dy
            &&& !blocked && is_neighbour_step(dx, dy) ==> !after[id].is_at(
                objects[id].x as int,
                objects[id].y as int,
            )
            &&& forall|other: int| 0 <= other < objects.len() && other != id ==> after[other] == objects[other]
        }),
{
}

/// Whether the turn of the monster at index `id` can be taken whichever
/// neighbouring tile is drawn for it.
pub open spec fn ai_turn_always_in_range(
    id: int,
    fov: Fov,
    map: Seq<Vec<Tile>>,
    inventory: Seq<Object>,
    objects: Seq<Object>,
) -> bool {
    forall|dx: int, dy: int|
        is_neighbour_step(dx, dy) ==> #[trigger] ai_turn_in_range(
            id,
            dx,
            dy,
            fov,
            map,
            inventory,
            objects,
        )
}

/// Whether the tile the actor at `(x, y)` would step on towards the
/// target is a tile of the grid.
fn step_in_map(x: i32, y: i32, target_x: i32, target_y: i32, map: &TileMap) -> (fits: bool)
    ensures
        fits == ({
            let step = step_towards(x as int, y as int, target_x as int, target_y as int);
            in_map(map@, x + step.0, y + step.1)
        }),
{
    let dx = axis_step(target_x, target_y, x, y);
    let dy = axis_step(target_y, target_x, y, x);
    tile_exists(map, x as i64 + dx as i64, y as i64 + dy as i64)
}

/// Whether an actor at `(x, y)` can try to move by `(dx, dy)`: the
/// destination is a tile of the grid that an `i32` can name.
pub open spec fn can_stumble(map: Seq<Vec<Tile>>, x: int, y: int, dx: int, dy: int) -> bool {
    fits_i32(x + dx) && fits_i32(y + dy) && in_map(map, x + dx, y + dy)
}

/// Computes [`can_stumble`].
fn stumble_fits(x: i32, y: i32, dx: i64, dy: i64, map: &TileMap) -> (fits: bool)
    requires
        -1 <= dx <= 1,
        -1 <= dy <= 1,
    ensures
        fits == can_stumble(map@, x as int, y as int, dx as int, dy as int),
{
    let tx = x as i64 + dx;
    let ty = y as i64 + dy;
    tx <= 0x7fff_ffff && ty <= 0x7fff_ffff && tile_exists(map, tx, ty)
}

/// Whether all eight neighbours of `(x, y)` are tiles of the grid that an
/// `i32` can name.
fn surroundings_in_map(x: i32, y: i32, map: &TileMap) -> (fits: bool)
    ensures
        fits == (forall|dx: int, dy: int|
            is_neighbour_step(dx, dy) ==> #[trigger] can_stumble(
                map@,
                x as int,
                y as int,
                dx,
                dy,
            )),
{
    stumble_fits(x, y, -1, -1, map) && stumble_fits(x, y, -1, 0, map) && stumble_fits(
        x,
        y,
        -1,
        1,
        map,
    ) && stumble_fits(x, y, 0, -1, map) && stumble_fits(x, y, 0, 1, map) && stumble_fits(
        x,
        y,
        1,
        -1,
        map,
    ) && stumble_fits(x, y, 1, 0, map) && stumble_fits(x, y, 1, 1, map)
}

/// Whether [`ai_take_turn`] can be asked for the turn of the monster at
/// index `monster_id`: the monster exists and is not the player, and
/// whatever it may do keeps to the grid and to the machine's number range.
pub fn turn_fits(monster_id: usize, fov: &Fov, game: &Game, objects: &[Object]) -> (fits: bool)
    ensures
        fits == (monster_id != PLAYER && monster_id < objects@.len() && ai_turn_always_in_range(
            monster_id as int,
            *fov,
            game.map@,
            game.inventory@,
            objects@,
        )),
{
    if monster_id == PLAYER || monster_id >= objects.len() {
        return false;
    }
    let ghost id = monster_id as int;
    let monster = &objects[monster_id];
    if !monster.alive {
        assert(ai_turn_always_in_range(id, *fov, game.map@, game.inventory@, objects@));
        return true;
    }
    match &monster.ai {
        None => {
            assert(ai_turn_always_in_range(id, *fov, game.map@, game.inventory@, objects@));
            true
        },
        Some(Ai::Frozen { .. }) => {
            assert(ai_turn_always_in_range(id, *fov, game.map@, game.inventory@, objects@));
            true
        },
        Some(Ai::Basic) => {
            let fits = if !fov.is_in_fov(monster.x, monster.y) {
                true
            } else if is_near(monster, &objects[PLAYER]) {
                attack_fits(monster_id, PLAYER, objects, game)
            } else {
                step_in_map(monster.x, monster.y, objects[PLAYER].x, objects[PLAYER].y, &game.map)
            };
            proof {
                assert(fits == hunt_in_range(id, *fov, game.map@, game.inventory@, objects@));
                assert(is_neighbour_step(1, 0));
                assert(fits == ai_turn_in_range(
                    id,
                    1,
                    0,
                    *fov,
                    game.map@,
                    game.inventory@,
                    objects@,
                ));
            }
            fits
        },
        Some(Ai::Confused { previous_ai: _, num_turns }) => {
            if *num_turns <= 0 {
                assert(ai_turn_always_in_range(id, *fov, game.map@, game.inventory@, objects@));
                return true;
            }
            let fits = surroundings_in_map(monster.x, monster.y, &game.map);
            proof {
                if fits {
                    assert forall|dx: int, dy: int|
                        is_neighbour_step(dx, dy) implies #[trigger] ai_turn_in_range(
                        id,
                        dx,
                        dy,
                        *fov,
                        game.map@,
                        game.inventory@,
                        objects@,
                    ) by {
                        assert(can_stumble(game.map@, monster.x as int, monster.y as int, dx, dy));
                    }
                } else {
                    let (dx, dy) = choose|dx: int, dy: int|
                        is_neighbour_step(dx, dy) && !#[trigger] can_stumble(
                            game.map@,
                            monster.x as int,
                            monster.y as int,
                            dx,
                            dy,
                        );
                    assert(!ai_turn_in_range(
                        id,
                        dx,
                        dy,
                        *fov,
                        game.map@,
                        game.inventory@,
                        objects@,
                    ));
                }
            }
            fits
        },
    }
}

/// Whether the tile `(dx, dy)` away from `(x, y)` is blocked.
pub open spec fn blocked_towards(
    map: Seq<Vec<Tile>>,
    objects: Seq<Object>,
    x: int,
    y: int,
    dx: int,
    dy: int,
) -> bool {
    blocked_at(map, objects, x + dx, y + dy)
}

/// Whether all eight tiles around `(x, y)` are blocked.
pub open spec fn boxed_in(map: Seq<Vec<Tile>>, objects: Seq<Object>, x: int, y: int) -> bool {
    forall|dx: int, dy: int|
        is_neighbour_step(dx, dy) ==> #[trigger] blocked_towards(map, objects, x, y, dx, dy)
}

/// A confused monster that is boxed in stays where it is, whichever
/// neighbouring tile is drawn for it.
pub proof fn lemma_boxed_in_stays(
    id: int,
    dx: int,
    dy: int,
    fov: Fov,
    map: Seq<Vec<Tile>>,
    inventory: Seq<Object>,
    objects: Seq<Object>,
)
    requires
        0 <= id < objects.len(),
        objects[id].ai matches Some(Ai::Confused { .. }),
        is_neighbour_step(dx, dy),
        boxed_in(map, objects, objects[id].x as int, objects[id].y as int),
    ensures
        ({
            let after = after_ai_turn(id, dx, dy, fov, map, inventory, objects);
            after[id].x == objects[id].x && after[id].y == objects[id].y
        }),
{
    assert(blocked_towards(map, objects, objects[id].x as int, objects[id].y as int, dx, dy));
}

} // verus!
