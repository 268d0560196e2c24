use roguelike::ai::{ai_take_turn, ai_turn, is_near, move_by, move_towards, neighbour};
use roguelike::color::Color;
use roguelike::combat::{attack, defense, heal, max_hp, power};
use roguelike::game::{Fov, Game};
use roguelike::generate::wall_map;
use roguelike::map::{create_room, Rect};
use roguelike::messages::{Message, Messages};
use roguelike::object::{Ai, DeathCallback, Equipment, Fighter, Object, Slot};
use roguelike::spawn::{create_monster, MonsterKind};

fn player_at(x: i32, y: i32) -> Object {
    let mut p = Object::new(x, y, '@', Color::White, "player", true);
    p.alive = true;
    p.fighter = Some(Fighter {
        base_max_hp: 30,
        hp: 30,
        base_defense: 0,
        base_power: 5,
        xp: 0,
        on_death: DeathCallback::Player,
    });
    p
}

fn arena() -> Game {
    let mut map = wall_map();
    create_room(Rect::new(0, 0, 20, 20), &mut map);
    Game { map, messages: Messages::new(), inventory: Vec::new(), dungeon_level: 1 }
}

fn all_seeing() -> Fov {
    let mut fov = Fov::new(80, 43);
    for x in 0..80 {
        for y in 0..43 {
            fov.set(x, y, true);
        }
    }
    fov
}

fn worn(slot: Slot, hp: i32, def: i32, pow: i32, equipped: bool) -> Object {
    let mut o = Object::new(0, 0, '/', Color::Sky, "gear", false);
    o.equipment = Some(Equipment {
        slot,
        equipped,
        max_hp_bonus: hp,
        defense_bonus: def,
        power_bonus: pow,
    });
    o
}

#[test]
fn orc_tick_then_player_attack() {
    let mut game = arena();
    let fov = all_seeing();
    let mut objects = vec![player_at(5, 5), create_monster(MonsterKind::Orc, 6, 5)];
    ai_take_turn(1, &fov, &mut game, &mut objects);
    assert_eq!(objects[0].fighter.unwrap().hp, 26);
    assert_eq!(objects[1].pos(), (6, 5));
    assert_eq!(objects[1].ai, Some(Ai::Basic));
    attack(0, 1, &mut objects, &mut game);
    assert_eq!(objects[1].fighter.unwrap().hp, 15);
    assert_eq!(
        game.messages.messages,
        vec![
            Message::Attack { attacker: "orc".into(), target: "player".into(), damage: 4 },
            Message::Attack { attacker: "player".into(), target: "orc".into(), damage: 5 },
        ]
    );
}

#[test]
fn stats_add_worn_bonuses_for_the_player_only() {
    let mut game = arena();
    game.inventory.push(worn(Slot::RightHand, 0, 0, 3, true));
    game.inventory.push(worn(Slot::LeftHand, 5, 1, 0, true));
    game.inventory.push(worn(Slot::LeftHand, 100, 100, 100, false));
    let objects = vec![player_at(5, 5), create_monster(MonsterKind::Troll, 7, 7)];
    assert_eq!(power(0, &objects, &game), 8);
    assert_eq!(defense(0, &objects, &game), 1);
    assert_eq!(max_hp(0, &objects, &game), 35);
    assert_eq!(power(1, &objects, &game), 8);
    assert_eq!(defense(1, &objects, &game), 2);
    assert_eq!(max_hp(1, &objects, &game), 30);
    let item = vec![player_at(0, 0), Object::new(1, 1, '!', Color::Violet, "potion", false)];
    assert_eq!(power(1, &item, &game), 0);
}

#[test]
fn attack_without_effect_leaves_the_target_alone() {
    let mut game = arena();
    let mut objects = vec![player_at(5, 5), create_monster(MonsterKind::Troll, 6, 5)];
    if let Some(f) = objects[0].fighter.as_mut() {
        f.base_power = 2;
    }
    attack(0, 1, &mut objects, &mut game);
    assert_eq!(objects[1].fighter.unwrap().hp, 30);
    assert_eq!(
        game.messages.messages,
        vec![Message::AttackNoEffect { attacker: "player".into(), target: "troll".into() }]
    );
    // power below defense: still no damage, hit points never rise
    if let Some(f) = objects[0].fighter.as_mut() {
        f.base_power = 0;
    }
    attack(0, 1, &mut objects, &mut game);
    assert_eq!(objects[1].fighter.unwrap().hp, 30);
}

#[test]
fn killing_blow_makes_a_corpse_and_pays_the_attacker() {
    let mut game = arena();
    let mut objects = vec![player_at(5, 5), create_monster(MonsterKind::Orc, 6, 5)];
    if let Some(f) = objects[0].fighter.as_mut() {
        f.base_power = 20;
    }
    attack(0, 1, &mut objects, &mut game);
    let orc = &objects[1];
    assert!(!orc.alive && !orc.blocks);
    assert_eq!(orc.fighter, None);
    assert_eq!(orc.ai, None);
    assert_eq!(orc.glyph, '%');
    assert_eq!(orc.color, Color::DarkRed);
    assert_eq!(objects[0].fighter.unwrap().xp, 35);
    assert_eq!(
        game.messages.messages,
        vec![
            Message::Attack { attacker: "player".into(), target: "orc".into(), damage: 20 },
            Message::MonsterDied { name: "orc".into(), xp: 35 },
        ]
    );
}

#[test]
fn take_damage_rewards_once() {
    let mut log = Messages::new();
    let mut orc = create_monster(MonsterKind::Orc, 1, 1);
    assert_eq!(orc.take_damage(5, &mut log), None);
    assert_eq!(orc.fighter.unwrap().hp, 15);
    assert!(orc.alive);
    assert_eq!(orc.take_damage(15, &mut log), Some(35));
    assert_eq!(orc.take_damage(15, &mut log), None);
    assert_eq!(log.len(), 1);

    let mut player = player_at(0, 0);
    if let Some(f) = player.fighter.as_mut() {
        f.xp = 7;
    }
    assert_eq!(player.take_damage(30, &mut log), Some(7));
    assert!(!player.alive);
    assert!(player.fighter.is_some());
    assert_eq!(player.fighter.unwrap().hp, 0);
    assert_eq!(player.glyph, '%');
    assert!(player.blocks);
    assert_eq!(player.take_damage(10, &mut log), None);
    assert_eq!(player.fighter.unwrap().hp, -10);
    assert_eq!(log.messages[1], Message::PlayerDied);
    assert_eq!(log.len(), 2);

    let mut stone = Object::new(0, 0, '#', Color::White, "stone", true);
    assert_eq!(stone.take_damage(10, &mut log), None);
    assert_eq!(stone, Object::new(0, 0, '#', Color::White, "stone", true));
}

#[test]
fn heal_stops_at_the_maximum() {
    let mut game = arena();
    game.inventory.push(worn(Slot::LeftHand, 5, 0, 0, true));
    let mut objects = vec![player_at(5, 5)];
    if let Some(f) = objects[0].fighter.as_mut() {
        f.hp = 10;
    }
    heal(0, 12, &mut objects, &game);
    assert_eq!(objects[0].fighter.unwrap().hp, 22);
    heal(0, 40, &mut objects, &game);
    assert_eq!(objects[0].fighter.unwrap().hp, 35);
}

#[test]
fn moving_is_stopped_by_walls_and_actors() {
    let game = arena();
    let mut objects = vec![player_at(1, 1), create_monster(MonsterKind::Orc, 2, 1)];
    move_by(0, -1, 0, &game.map, &mut objects);
    assert_eq!(objects[0].pos(), (1, 1));
    move_by(0, 1, 0, &game.map, &mut objects);
    assert_eq!(objects[0].pos(), (1, 1));
    move_by(0, 1, 1, &game.map, &mut objects);
    assert_eq!(objects[0].pos(), (2, 2));
}

#[test]
fn step_towards_rounds_the_direction() {
    let game = arena();
    let cases = [
        ((5, 5), (10, 5), (6, 5)),
        ((5, 5), (10, 7), (6, 5)),
        ((5, 5), (10, 8), (6, 6)),
        ((5, 5), (10, 10), (6, 6)),
        ((5, 5), (6, 10), (5, 6)),
        ((5, 5), (1, 2), (4, 4)),
        ((5, 5), (5, 5), (5, 5)),
        ((5, 5), (5, 1), (5, 4)),
    ];
    for (from, to, expected) in cases {
        let mut objects = vec![player_at(18, 18), create_monster(MonsterKind::Orc, from.0, from.1)];
        move_towards(1, to.0, to.1, &game.map, &mut objects);
        assert_eq!(objects[1].pos(), expected);
    }
}

#[test]
fn basic_monster_hunts_only_in_view() {
    let mut game = arena();
    let dark = Fov::new(80, 43);
    let mut objects = vec![player_at(5, 5), create_monster(MonsterKind::Orc, 6, 5)];
    ai_take_turn(1, &dark, &mut game, &mut objects);
    assert_eq!(objects[0].fighter.unwrap().hp, 30);
    assert_eq!(objects[1].pos(), (6, 5));

    let fov = all_seeing();
    let mut objects = vec![player_at(5, 5), create_monster(MonsterKind::Orc, 10, 5)];
    ai_take_turn(1, &fov, &mut game, &mut objects);
    assert_eq!(objects[1].pos(), (9, 5));
    assert_eq!(objects[0].fighter.unwrap().hp, 30);
    assert!(is_near(&objects[0], &create_monster(MonsterKind::Orc, 6, 6)));
    assert!(!is_near(&objects[0], &create_monster(MonsterKind::Orc, 7, 5)));
}

#[test]
fn dead_or_mindless_actors_take_no_turn() {
    let mut game = arena();
    let fov = all_seeing();
    let mut orc = create_monster(MonsterKind::Orc, 6, 5);
    orc.alive = false;
    let mut objects = vec![player_at(5, 5), orc, Object::new(4, 5, '!', Color::Violet, "potion", false)];
    ai_take_turn(1, &fov, &mut game, &mut objects);
    ai_take_turn(2, &fov, &mut game, &mut objects);
    assert_eq!(objects[0].fighter.unwrap().hp, 30);
    assert_eq!(objects[1].ai, Some(Ai::Basic));
    assert_eq!(game.messages.len(), 0);
}

#[test]
fn frozen_monster_stands_still_and_thaws_after_n_turns() {
    let mut game = arena();
    let fov = all_seeing();
    let mut orc = create_monster(MonsterKind::Orc, 6, 5);
    orc.ai = Some(Ai::Frozen { previous_ai: Box::new(Ai::Basic), num_turns: 3 });
    let mut objects = vec![player_at(5, 5), orc];
    for left in [2, 1] {
        ai_take_turn(1, &fov, &mut game, &mut objects);
        assert_eq!(
            objects[1].ai,
            Some(Ai::Frozen { previous_ai: Box::new(Ai::Basic), num_turns: left })
        );
        assert_eq!(objects[1].pos(), (6, 5));
        assert_eq!(game.messages.len(), 0);
    }
    ai_take_turn(1, &fov, &mut game, &mut objects);
    assert_eq!(objects[1].ai, Some(Ai::Basic));
    assert_eq!(objects[1].pos(), (6, 5));
    assert_eq!(objects[0].fighter.unwrap().hp, 30);
    assert_eq!(game.messages.messages, vec![Message::NoLongerFrozen { name: "orc".into() }]);
    ai_take_turn(1, &fov, &mut game, &mut objects);
    assert_eq!(objects[0].fighter.unwrap().hp, 26);
}

#[test]
fn confused_monster_moves_as_drawn_and_recovers_after_n_turns() {
    let mut game = arena();
    let fov = all_seeing();
    let mut orc = create_monster(MonsterKind::Orc, 6, 5);
    orc.ai = Some(Ai::Confused { previous_ai: Box::new(Ai::Basic), num_turns: 2 });
    let mut objects = vec![player_at(5, 5), orc];
    // the drawn tile is the player's: blocked, no move
    ai_turn(1, -1, 0, &fov, &mut game, &mut objects);
    assert_eq!(objects[1].pos(), (6, 5));
    assert_eq!(
        objects[1].ai,
        Some(Ai::Confused { previous_ai: Box::new(Ai::Basic), num_turns: 1 })
    );
    assert_eq!(objects[0].fighter.unwrap().hp, 30);
    ai_turn(1, 1, -1, &fov, &mut game, &mut objects);
    assert_eq!(objects[1].pos(), (7, 4));
    assert_eq!(objects[1].ai, Some(Ai::Basic));
    assert_eq!(game.messages.messages, vec![Message::NoLongerConfused { name: "orc".into() }]);
}

#[test]
fn confused_monster_with_no_turns_left_recovers_without_moving() {
    let mut game = arena();
    let fov = all_seeing();
    let mut orc = create_monster(MonsterKind::Orc, 6, 5);
    orc.ai = Some(Ai::Confused { previous_ai: Box::new(Ai::Basic), num_turns: 0 });
    let mut objects = vec![player_at(5, 5), orc];
    ai_turn(1, 1, 1, &fov, &mut game, &mut objects);
    assert_eq!(objects[1].pos(), (6, 5));
    assert_eq!(objects[1].ai, Some(Ai::Basic));
}

#[test]
fn confused_monster_wanders_at_random() {
    let mut game = arena();
    let fov = all_seeing();
    let mut seen = Vec::new();
    for _ in 0..60 {
        let mut orc = create_monster(MonsterKind::Orc, 10, 10);
        orc.ai = Some(Ai::Confused { previous_ai: Box::new(Ai::Basic), num_turns: 5 });
        let mut objects = vec![player_at(1, 1), orc];
        ai_take_turn(1, &fov, &mut game, &mut objects);
        let (x, y) = objects[1].pos();
        assert!((x - 10).abs() <= 1 && (y - 10).abs() <= 1);
        // in the open a neighbouring tile is always reached
        assert!((x, y) != (10, 10));
        seen.push((x, y));
    }
    assert!(seen.iter().any(|p| *p != seen[0]));
}

#[test]
fn level_up_spends_the_threshold() {
    let mut log = Messages::new();
    let mut player = player_at(0, 0);
    if let Some(f) = player.fighter.as_mut() {
        f.xp = 349;
    }
    assert!(!player.level_up(&mut log));
    assert_eq!(player.level, 1);
    if let Some(f) = player.fighter.as_mut() {
        f.xp = 360;
    }
    assert!(player.level_up(&mut log));
    assert_eq!(player.level, 2);
    assert_eq!(player.fighter.unwrap().xp, 10);
    assert_eq!(log.messages, vec![Message::LevelUp { level: 2 }]);
    assert!(!player.level_up(&mut log));
}

#[test]
fn the_eight_neighbours() {
    let mut steps = Vec::new();
    for k in 0..8 {
        let (dx, dy) = neighbour(k);
        assert!((-1..=1).contains(&dx) && (-1..=1).contains(&dy));
        assert!((dx, dy) != (0, 0));
        assert!(!steps.contains(&(dx, dy)));
        steps.push((dx, dy));
    }
    assert_eq!(steps[0], (-1, -1));
    assert_eq!(steps[4], (1, 0));
    assert_eq!(steps[7], (1, 1));
}

#[test]
fn boxed_in_confused_monster_stays() {
    let mut game = arena();
    game.map = wall_map();
    game.map[5][5].blocked = false;
    let fov = all_seeing();
    for _ in 0..20 {
        let mut orc = create_monster(MonsterKind::Orc, 5, 5);
        orc.ai = Some(Ai::Confused { previous_ai: Box::new(Ai::Basic), num_turns: 4 });
        let mut objects = vec![player_at(1, 1), orc];
        ai_take_turn(1, &fov, &mut game, &mut objects);
        assert_eq!(objects[1].pos(), (5, 5));
    }
}
