//! Damage, death, healing and melee.
//!
//! An actor's effective statistics are its base values plus the bonuses of
//! everything it wears. Only the player carries an inventory, so only the
//! player, the actor at index [`PLAYER`], gets bonuses.

use vstd::prelude::*;
use crate::color::Color;
use crate::constants::PLAYER;
use crate::game::Game;
use crate::messages::{Message, Messages};
use crate::mut_two;
use crate::object::{DeathCallback, Equipment, Fighter, Object};

verus! {

/// The statistics that equipment can raise.
#[derive(Clone, Copy, Debug, PartialEq, Eq, Structural)]
pub enum Stat {
    MaxHp,
    Defense,
    Power,
}

/// What a piece of equipment adds to a statistic.
pub open spec fn bonus_of(equipment: Equipment, stat: Stat) -> int {
    match stat {
        Stat::MaxHp => equipment.max_hp_bonus as int,
        Stat::Defense => equipment.defense_bonus as int,
        Stat::Power => equipment.power_bonus as int,
    }
}

/// What an item adds to a statistic: its bonus if it is worn, nothing
/// otherwise.
pub open spec fn worn_bonus(item: Object, stat: Stat) -> int {
    if item.is_equipped() {
        bonus_of(item.equipment->0, stat)
    } else {
        0
    }
}

/// Sum of the bonuses of every worn item of an inventory.
pub open spec fn equipment_bonus(inventory: Seq<Object>, stat: Stat) -> int
    decreases inventory.len(),
{
    if inventory.len() == 0 {
        0
    } else {
        equipment_bonus(inventory.drop_last(), stat) + worn_bonus(inventory.last(), stat)
    }
}

/// An actor's own value of a statistic, zero if it cannot fight.
pub open spec fn base_stat(object: Object, stat: Stat) -> int {
    match object.fighter {
        Some(fighter) => match stat {
            Stat::MaxHp => fighter.base_max_hp as int,
            Stat::Defense => fighter.base_defense as int,
            Stat::Power => fighter.base_power as int,
        },
        None => 0,
    }
}

/// The effective value of a statistic of the actor at index `id`: its own
/// value, plus for the player the bonuses of everything worn.
pub open spec fn total_stat(id: int, objects: Seq<Object>, inventory: Seq<Object>, stat: Stat)
    -> int {
    base_stat(objects[id], stat) + if id == PLAYER {
        equipment_bonus(inventory, stat)
    } else {
        0
    }
}

/// Whether a value can be held in an `i32`.
pub open spec fn fits_i32(value: int) -> bool {
    i32::MIN <= value <= i32::MAX
}

/// Sums the bonuses of every worn item of the inventory.
fn sum_bonuses(inventory: &Vec<Object>, stat: Stat) -> (sum: i128)
    ensures
        sum == equipment_bonus(inventory@, stat),
        -0x8000_0000_0000_0000_0000_0000 <= sum <= 0x8000_0000_0000_0000_0000_0000,
{
    let mut sum: i128 = 0;
    let mut i: usize = 0;
    while i < inventory.len()
        invariant
            i <= inventory@.len(),
            sum == equipment_bonus(inventory@.take(i as int), stat),
            -(i as int) * 0x8000_0000 <= sum <= (i as int) * 0x8000_0000,
        decreases inventory@.len() - i,
    {
        proof {
            assert(inventory@.take(i as int + 1).drop_last() =~= inventory@.take(i as int));
            assert((i as int + 1) * 0x8000_0000 == (i as int) * 0x8000_0000 + 0x8000_0000)
                by (nonlinear_arith);
            assert((i as int) * 0x8000_0000 <= 0xFFFF_FFFF_FFFF_FFFF * 0x8000_0000)
                by (nonlinear_arith)
                requires
                    0 <= i <= 0xFFFF_FFFF_FFFF_FFFF,
            ;
        }
        match inventory[i].equipment {
            Some(equipment) => {
                if equipment.equipped {
                    let bonus = match stat {
                        Stat::MaxHp => equipment.max_hp_bonus,
                        Stat::Defense => equipment.defense_bonus,
                        Stat::Power => equipment.power_bonus,
                    };
                    sum = sum + bonus as i128;
                }
            },
            None => {},
        }
        i += 1;
    }
    assert(inventory@.take(i as int) =~= inventory@);
    sum
}

/// The effective value of a statistic of the actor at index `id`.
pub fn stat_of(id: usize, stat: Stat, objects: &[Object], game: &Game) -> (value: i32)
    requires
        id < objects@.len(),
        fits_i32(total_stat(id as int, objects@, game.inventory@, stat)),
    ensures
        value == total_stat(id as int, objects@, game.inventory@, stat),
{
    let base: i32 = match objects[id].fighter {
        Some(fighter) => match stat {
            Stat::MaxHp => fighter.base_max_hp,
            Stat::Defense => fighter.base_defense,
            Stat::Power => fighter.base_power,
        },
        None => 0,
    };
    if id == PLAYER {
        let bonus = sum_bonuses(&game.inventory, stat);
        (base as i128 + bonus) as i32
    } else {
        base
    }
}

/// The most hit points the actor can have: its base plus the bonuses of
/// what is worn.
pub fn max_hp(id: usize, objects: &[Object], game: &Game) -> (value: i32)
    requires
        id < objects@.len(),
        fits_i32(total_stat(id as int, objects@, game.inventory@, Stat::MaxHp)),
    ensures
        value == total_stat(id as int, objects@, game.inventory@, Stat::MaxHp),
{
    stat_of(id, Stat::MaxHp, objects, game)
}

/// The actor's attack strength: its base plus the bonuses of what is worn.
pub fn power(id: usize, objects: &[Object], game: &Game) -> (value: i32)
    requires
        id < objects@.len(),
        fits_i32(total_stat(id as int, objects@, game.inventory@, Stat::Power)),
    ensures
        value == total_stat(id as int, objects@, game.inventory@, Stat::Power),
{
    stat_of(id, Stat::Power, objects, game)
}

/// The actor's resistance to melee hits: its base plus the bonuses of what
/// is worn.
pub fn defense(id: usize, objects: &[Object], game: &Game) -> (value: i32)
    requires
        id < objects@.len(),
        fits_i32(total_stat(id as int, objects@, game.inventory@, Stat::Defense)),
    ensures
        value == total_stat(id as int, objects@, game.inventory@, Stat::Defense),
{
    stat_of(id, Stat::Defense, objects, game)
}

impl DeathCallback {
    /// Applies the death behaviour to an actor whose hit points ran out.
    /// The player stays in the registry as it is but for its looks; a
    /// monster becomes a corpse that is in nobody's way and neither fights
    /// nor acts. Either way the death is noted in the log.
    pub fn callback(self, object: &mut Object, messages: &mut Messages)
        requires
            old(object).fighter is Some,
        ensures
            *final(object) == old(object).as_dead(self),
            final(messages)@ == old(messages)@.push(old(object).death_message(self)),
    {
        match self {
            DeathCallback::Player => {
                messages.add(Message::PlayerDied);
                object.glyph = '%';
                object.color = Color::DarkRed;
            },
            DeathCallback::Monster => {
                let xp = match object.fighter {
                    Some(fighter) => fighter.xp,
                    None => 0,
                };
                messages.add(Message::MonsterDied { name: object.name.clone(), xp });
                object.glyph = '%';
                object.color = Color::DarkRed;
                object.blocks = false;
                object.fighter = None;
                object.ai = None;
            },
        }
    }
}

impl Object {
    /// The actor once the given death behaviour has been applied to it.
    pub open spec fn as_dead(self, on_death: DeathCallback) -> Object {
        match on_death {
            DeathCallback::Player => Object { glyph: '%', color: Color::DarkRed, ..self },
            DeathCallback::Monster => Object {
                glyph: '%',
                color: Color::DarkRed,
                blocks: false,
                fighter: None,
                ai: None,
                ..self
            },
        }
    }

    /// The log entry that notes the actor's death.
    pub open spec fn death_message(self, on_death: DeathCallback) -> Message {
        match on_death {
            DeathCallback::Player => Message::PlayerDied,
            DeathCallback::Monster => Message::MonsterDied {
                name: self.name,
                xp: self.fighter->0.xp,
            },
        }
    }

    /// Whether the given damage kills the actor: it can fight, is alive,
    /// and its hit points drop to zero or below.
    pub open spec fn dies_from(self, damage: int) -> bool {
        self.fighter matches Some(fighter) && self.alive && fighter.hp - damage <= 0
    }

    /// The actor with the damage taken off its hit points, before any
    /// death behaviour.
    pub open spec fn hurt_by(self, damage: int) -> Object {
        match self.fighter {
            Some(fighter) => Object {
                fighter: Some(Fighter { hp: (fighter.hp - damage) as i32, ..fighter }),
                ..self
            },
            None => self,
        }
    }

    /// The actor after taking the given damage.
    pub open spec fn after_damage(self, damage: int) -> Object {
        if self.dies_from(damage) {
            (Object { alive: false, ..self.hurt_by(damage) }).as_dead(self.fighter->0.on_death)
        } else {
            self.hurt_by(damage)
        }
    }

    /// What whoever dealt the given damage earns: the actor's experience
    /// value if the damage kills it, nothing otherwise.
    pub open spec fn reward_for(self, damage: int) -> Option<i32> {
        if self.dies_from(damage) {
            Some(self.fighter->0.xp)
        } else {
            None
        }
    }

    /// What taking the given damage adds to the log.
    pub open spec fn damage_log(self, damage: int) -> Seq<Message> {
        if self.dies_from(damage) {
            seq![(Object { alive: false, ..self.hurt_by(damage) }).death_message(self.fighter->0.on_death)]
        } else {
            Seq::empty()
        }
    }

    /// Takes `damage` off the actor's hit points. If that brings a living
    /// actor down to zero or below, the actor is marked dead, its death
    /// behaviour is applied, and its experience value is returned as the
    /// reward for the kill. An actor that cannot fight is left alone, and
    /// one that is dead already yields no reward again.
    pub fn take_damage(&mut self, damage: i32, messages: &mut Messages) -> (reward: Option<i32>)
        requires
            old(self).fighter matches Some(fighter) ==> fits_i32(fighter.hp - damage),
        ensures
            *final(self) == old(self).after_damage(damage as int),
            reward == old(self).reward_for(damage as int),
            final(messages)@ == old(messages)@ + old(self).damage_log(damage as int),
            !old(self).alive ==> reward is None,
            old(self).fighter is None ==> reward is None && *final(self) == *old(self),
    {
        match self.fighter {
            Some(fighter) => {
                let hp = fighter.hp - damage;
                self.fighter = Some(Fighter { hp, ..fighter });
                if hp <= 0 && self.alive {
                    self.alive = false;
                    fighter.on_death.callback(self, messages);
                    return Some(fighter.xp);
                }
            },
            None => {},
        }
        assert(old(messages)@ + Seq::<Message>::empty() =~= old(messages)@);
        None
    }

    /// The actor with `amount` added to its hit points, but no more than
    /// `max_hp`.
    pub open spec fn healed_by(self, amount: int, max_hp: int) -> Object {
        match self.fighter {
            Some(fighter) => {
                let hp = if fighter.hp + amount > max_hp {
                    max_hp
                } else {
                    fighter.hp + amount
                };
                Object { fighter: Some(Fighter { hp: hp as i32, ..fighter }), ..self }
            },
            None => self,
        }
    }

    /// The actor with `gain` added to its experience, if it can fight.
    pub open spec fn with_xp_gain(self, gain: int) -> Object {
        match self.fighter {
            Some(fighter) => Object {
                fighter: Some(Fighter { xp: (fighter.xp + gain) as i32, ..fighter }),
                ..self
            },
            None => self,
        }
    }

    /// Adds `gain` to the actor's experience, if it can fight.
    pub fn gain_xp(&mut self, gain: i32)
        requires
            old(self).fighter matches Some(fighter) ==> fits_i32(fighter.xp + gain),
        ensures
            *final(self) == old(self).with_xp_gain(gain as int),
    {
        match self.fighter {
            Some(fighter) => {
                self.fighter = Some(Fighter { xp: fighter.xp + gain, ..fighter });
            },
            None => {},
        }
    }
}

/// Heals the actor at index `id` by `amount` hit points, up to its
/// effective maximum.
pub fn heal(id: usize, amount: i32, objects: &mut [Object], game: &Game)
    requires
        id < old(objects)@.len(),
        fits_i32(total_stat(id as int, old(objects)@, game.inventory@, Stat::MaxHp)),
        old(objects)@[id as int].fighter matches Some(fighter) ==> fits_i32(fighter.hp + amount),
    ensures
        final(objects)@ == old(objects)@.update(
            id as int,
            old(objects)@[id as int].healed_by(
                amount as int,
                total_stat(id as int, old(objects)@, game.inventory@, Stat::MaxHp),
            ),
        ),
{
    let max_hp = max_hp(id, objects, game);
    match objects[id].fighter {
        Some(fighter) => {
            let mut hp = fighter.hp + amount;
            if hp > max_hp {
                hp = max_hp;
            }
            objects[id].fighter = Some(Fighter { hp, ..fighter });
        },
        None => {
            assert(old(objects)@.update(id as int, old(objects)@[id as int]) =~= old(objects)@);
        },
    }
}

/// The damage a melee hit of `attacker` on `defender` does before it is
/// cut off at zero: the attacker's power less the defender's defense.
pub open spec fn melee_damage(
    attacker: int,
    defender: int,
    objects: Seq<Object>,
    inventory: Seq<Object>,
) -> int {
    total_stat(attacker, objects, inventory, Stat::Power) - total_stat(
        defender,
        objects,
        inventory,
        Stat::Defense,
    )
}

/// What the machine's number range demands of a melee hit: the statistics
/// involved, the defender's hit points after the hit and the attacker's
/// experience after a kill can all be held.
pub open spec fn attack_in_range(
    attacker: int,
    defender: int,
    objects: Seq<Object>,
    inventory: Seq<Object>,
) -> bool {
    let damage = melee_damage(attacker, defender, objects, inventory);
    &&& fits_i32(total_stat(attacker, objects, inventory, Stat::Power))
    &&& fits_i32(total_stat(defender, objects, inventory, Stat::Defense))
    &&& damage > 0 ==> {
        &&& fits_i32(damage)
        &&& objects[defender].fighter matches Some(target) ==> {
            &&& fits_i32(target.hp - damage)
            &&& objects[attacker].fighter matches Some(fighter) ==> fits_i32(
                fighter.xp + target.xp,
            )
        }
    }
}

/// The registry after a melee hit of `attacker` on `defender`.
pub open spec fn objects_after_attack(
    attacker: int,
    defender: int,
    objects: Seq<Object>,
    inventory: Seq<Object>,
) -> Seq<Object> {
    let damage = melee_damage(attacker, defender, objects, inventory);
    if damage > 0 {
        let gain = match objects[defender].reward_for(damage) {
            Some(xp) => xp as int,
            None => 0,
        };
        objects.update(defender, objects[defender].after_damage(damage)).update(
            attacker,
            objects[attacker].with_xp_gain(gain),
        )
    } else {
        objects
    }
}

/// What a melee hit of `attacker` on `defender` adds to the log.
pub open spec fn attack_log(
    attacker: int,
    defender: int,
    objects: Seq<Object>,
    inventory: Seq<Object>,
) -> Seq<Message> {
    let damage = melee_damage(attacker, defender, objects, inventory);
    if damage > 0 {
        seq![
            Message::Attack {
                attacker: objects[attacker].name,
                target: objects[defender].name,
                damage: damage as i32,
            },
        ] + objects[defender].damage_log(damage)
    } else {
        seq![
            Message::AttackNoEffect {
                attacker: objects[attacker].name,
                target: objects[defender].name,
            },
        ]
    }
}

/// A melee hit of the actor at index `attacker` on the one at index
/// `defender`. The damage is the attacker's power less the defender's
/// defense; if that is not positive the hit has no effect and the defender
/// takes no damage at all. If the hit kills, the attacker earns the
/// defender's experience value.
pub fn attack(attacker: usize, defender: usize, objects: &mut [Object], game: &mut Game)
    requires
        attacker != defender,
        attacker < old(objects)@.len(),
        defender < old(objects)@.len(),
        attack_in_range(attacker as int, defender as int, old(objects)@, old(game).inventory@),
    ensures
        final(objects)@ == objects_after_attack(
            attacker as int,
            defender as int,
            old(objects)@,
            old(game).inventory@,
        ),
        final(game).messages@ == old(game).messages@ + attack_log(
            attacker as int,
            defender as int,
            old(objects)@,
            old(game).inventory@,
        ),
        final(game).map == old(game).map,
        final(game).inventory == old(game).inventory,
        final(game).dungeon_level == old(game).dungeon_level,
{
    let power = power(attacker, objects, game);
    let defense = defense(defender, objects, game);
    let damage: i64 = power as i64 - defense as i64;
    let (fighter, target) = mut_two(attacker, defender, objects);
    if damage > 0 {
        game.messages.add(
            Message::Attack {
                attacker: fighter.name.clone(),
                target: target.name.clone(),
                damage: damage as i32,
            },
        );
        match target.take_damage(damage as i32, &mut game.messages) {
            Some(xp) => {
                fighter.gain_xp(xp);
            },
            None => {},
        }
        proof {
            let target0 = old(objects)@[defender as int];
            assert(game.messages@ =~= old(game).messages@ + (seq![
                Message::Attack {
                    attacker: old(objects)@[attacker as int].name,
                    target: target0.name,
                    damage: damage as i32,
                },
            ] + target0.damage_log(damage as int)));
            if target0.reward_for(damage as int) is None {
                let a = old(objects)@[attacker as int];
                assert(a.with_xp_gain(0) == a);
            }
        }
    } else {
        game.messages.add(
            Message::AttackNoEffect { attacker: fighter.name.clone(), target: target.name.clone() },
        );
        proof {
            assert(old(objects)@.update(attacker as int, *fighter).update(defender as int, *target)
                =~= old(objects)@);
            assert(game.messages@ =~= old(game).messages@ + seq![
                Message::AttackNoEffect {
                    attacker: old(objects)@[attacker as int].name,
                    target: old(objects)@[defender as int].name,
                },
            ]);
        }
    }
}

/// Computes [`total_stat`] in a type wide enough for any registry and
/// inventory.
fn wide_stat(id: usize, stat: Stat, objects: &[Object], game: &Game) -> (value: i128)
    requires
        id < objects@.len(),
    ensures
        value == total_stat(id as int, objects@, game.inventory@, stat),
        -0x1_0000_0000_0000_0000_0000_0000 <= value <= 0x1_0000_0000_0000_0000_0000_0000,
{
    let base: i32 = match objects[id].fighter {
        Some(fighter) => match stat {
            Stat::MaxHp => fighter.base_max_hp,
            Stat::Defense => fighter.base_defense,
            Stat::Power => fighter.base_power,
        },
        None => 0,
    };
    if id == PLAYER {
        let bonus = sum_bonuses(&game.inventory, stat);
        base as i128 + bonus
    } else {
        base as i128
    }
}

/// Whether a wide value can be held in an `i32`.
pub fn is_i32(value: i128) -> (fits: bool)
    ensures
        fits == fits_i32(value as int),
{
    -0x8000_0000 <= value && value <= 0x7fff_ffff
}

/// Whether [`stat_of`] can be asked for the statistic: the actor exists
/// and the value can be held.
pub fn stat_fits(id: usize, stat: Stat, objects: &[Object], game: &Game) -> (fits: bool)
    ensures
        fits == (id < objects@.len() && fits_i32(
            total_stat(id as int, objects@, game.inventory@, stat),
        )),
{
    id < objects.len() && is_i32(wide_stat(id, stat, objects, game))
}

/// Whether [`attack`] can be asked for the hit: the two actors exist, are
/// not the same, and the numbers involved can be held; see
/// [`attack_in_range`].
pub fn attack_fits(attacker: usize, defender: usize, objects: &[Object], game: &Game) -> (fits:
    bool)
    ensures
        fits == (attacker != defender && attacker < objects@.len() && defender < objects@.len()
            && attack_in_range(attacker as int, defender as int, objects@, game.inventory@)),
{
    if attacker == defender || attacker >= objects.len() || defender >= objects.len() {
        return false;
    }
    let power = wide_stat(attacker, Stat::Power, objects, game);
    let defense = wide_stat(defender, Stat::Defense, objects, game);
    if !is_i32(power) || !is_i32(defense) {
        return false;
    }
    let damage = power - defense;
    if damage <= 0 {
        return true;
    }
    if !is_i32(damage) {
        return false;
    }
    match objects[defender].fighter {
        Some(target) => {
            if !is_i32(target.hp as i128 - damage) {
                return false;
            }
            match objects[attacker].fighter {
                Some(fighter) => is_i32(fighter.xp as i128 + target.xp as i128),
                None => true,
            }
        },
        None => true,
    }
}

/// Healing never takes an actor's hit points above the maximum it is
/// given, and never takes any away from an actor at or below it.
pub proof fn lemma_heal_within_max(object: Object, amount: int, max_hp: int)
    requires
        object.fighter is Some,
        amount >= 0,
        fits_i32(max_hp),
        fits_i32(object.fighter->0.hp + amount),
    ensures
        object.healed_by(amount, max_hp).fighter->0.hp <= max_hp,
        object.fighter->0.hp <= max_hp ==> object.healed_by(amount, max_hp).fighter->0.hp
            >= object.fighter->0.hp,
{
}

} // verus!
