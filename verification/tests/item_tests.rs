use roguelike::color::Color;
use roguelike::game::{Fov, Game};
use roguelike::generate::wall_map;
use roguelike::item::{
    begin_use, cast_blink, cast_confuse, cast_fireball, cast_freeze, cast_heal, cast_lightning,
    closest_monster, create_item, drop_item, get_equipped_in_slot, item_spawner_menu,
    spawn_item_at_player, toggle_equipment, use_item, Aim, Target, UseResult,
};
use roguelike::map::{create_room, Rect};
use roguelike::messages::{Message, Messages};
use roguelike::object::{Ai, DeathCallback, Equipment, Fighter, Item, Object, Slot};
use roguelike::spawn::{
    create_floor_item, create_monster, item_choice, monster_choice, place_objects, spawn,
    MonsterKind,
};
use roguelike::targeting::{
    first_target_at, target_monster, target_tile, Input, InputEvent, Mouse, Targeting,
};

fn player_at(x: i32, y: i32) -> Object {
    let mut p = Object::new(x, y, '@', Color::White, "player", true);
    p.alive = true;
    p.fighter = Some(Fighter {
        base_max_hp: 30,
        hp: 30,
        base_defense: 0,
        base_power: 5,
        xp: 0,
        on_death: DeathCallback::Player,
    });
    p
}

fn arena() -> Game {
    let mut map = wall_map();
    create_room(Rect::new(0, 0, 30, 30), &mut map);
    Game { map, messages: Messages::new(), inventory: Vec::new(), dungeon_level: 1 }
}

fn all_seeing() -> Fov {
    let mut fov = Fov::new(80, 43);
    for x in 0..80 {
        for y in 0..43 {
            fov.set(x, y, true);
        }
    }
    fov
}

fn click(cx: i32, cy: i32) -> Input {
    Input {
        mouse: Mouse { cx, cy, lbutton_pressed: true, rbutton_pressed: false },
        escape: false,
    }
}

#[test]
fn monsters_have_their_statistics() {
    let orc = create_monster(MonsterKind::Orc, 3, 4);
    assert_eq!(orc.pos(), (3, 4));
    assert_eq!((orc.glyph, orc.color, orc.name.as_str()), ('o', Color::DesaturatedGreen, "orc"));
    assert!(orc.blocks && orc.alive && !orc.always_visible);
    assert_eq!(
        orc.fighter,
        Some(Fighter {
            base_max_hp: 20,
            hp: 20,
            base_defense: 0,
            base_power: 4,
            xp: 35,
            on_death: DeathCallback::Monster
        })
    );
    assert_eq!(orc.ai, Some(Ai::Basic));
    let troll = create_monster(MonsterKind::Troll, 0, 0);
    assert_eq!((troll.glyph, troll.color, troll.name.as_str()), ('T', Color::DarkerGreen, "troll"));
    assert_eq!(
        troll.fighter,
        Some(Fighter {
            base_max_hp: 30,
            hp: 30,
            base_defense: 2,
            base_power: 8,
            xp: 100,
            on_death: DeathCallback::Monster
        })
    );
    assert_eq!(monster_choice(0), MonsterKind::Orc);
    assert_eq!(monster_choice(1), MonsterKind::Troll);
}

#[test]
fn floor_items_and_spawner_items_differ() {
    let order = [
        Item::Heal,
        Item::Lightning,
        Item::Fireball,
        Item::Confuse,
        Item::Blink,
        Item::Freeze,
        Item::Sword,
        Item::Shield,
    ];
    let names = [
        "healing potion",
        "scroll of lightning bolt",
        "scroll of fireball",
        "scroll of confusion",
        "scroll of blink",
        "scroll of freeze",
        "sword",
        "shield",
    ];
    for (i, kind) in order.iter().enumerate() {
        assert_eq!(item_choice(i), *kind);
        let floor = create_floor_item(*kind, 2, 3);
        let made = create_item(*kind, 2, 3);
        assert_eq!(floor.name, names[i]);
        assert_eq!(made.name, names[i]);
        assert_eq!(floor.item, Some(*kind));
        assert_eq!(made.item, Some(*kind));
        assert!(floor.always_visible && !made.always_visible);
        assert!(!floor.blocks && !made.blocks);
        assert_eq!(floor.pos(), (2, 3));
    }
    let potion = create_floor_item(Item::Heal, 0, 0);
    assert_eq!((potion.glyph, potion.color), ('!', Color::Violet));
    let made_potion = create_item(Item::Heal, 0, 0);
    assert_eq!((made_potion.glyph, made_potion.color), ('#', Color::LightYellow));
    let sword = create_floor_item(Item::Sword, 0, 0);
    assert_eq!(
        sword.equipment,
        Some(Equipment {
            slot: Slot::RightHand,
            equipped: false,
            max_hp_bonus: 0,
            defense_bonus: 0,
            power_bonus: 3
        })
    );
    let shield = create_floor_item(Item::Shield, 0, 0);
    assert_eq!((shield.glyph, shield.color), ('[', Color::DarkerOrange));
    assert_eq!(shield.equipment.unwrap().defense_bonus, 1);
    assert_eq!(create_item(Item::Sword, 0, 0).equipment.unwrap().power_bonus, 1000);
    let made_shield = create_item(Item::Shield, 0, 0);
    assert_eq!(made_shield.glyph, '/');
    assert_eq!(made_shield.equipment.unwrap().defense_bonus, 1000);
    assert_eq!(made_shield.equipment.unwrap().slot, Slot::LeftHand);
}

#[test]
fn spawn_skips_blocked_tiles() {
    let game = arena();
    let mut objects = vec![player_at(5, 5)];
    assert!(!spawn(create_monster(MonsterKind::Orc, 5, 5), &game.map, &mut objects));
    assert!(!spawn(create_monster(MonsterKind::Orc, 0, 0), &game.map, &mut objects));
    assert_eq!(objects.len(), 1);
    assert!(spawn(create_monster(MonsterKind::Orc, 6, 5), &game.map, &mut objects));
    assert_eq!(objects.len(), 2);
    assert!(spawn(create_floor_item(Item::Heal, 7, 5), &game.map, &mut objects));
    assert!(spawn(create_floor_item(Item::Blink, 7, 5), &game.map, &mut objects));
    assert_eq!(objects.len(), 4);
}

#[test]
fn place_objects_stays_inside_the_room() {
    let game = arena();
    let room = Rect::new(2, 2, 6, 6);
    let mut total = 0;
    for _ in 0..100 {
        let mut objects = vec![player_at(20, 20)];
        place_objects(room, &game.map, &mut objects);
        assert!(objects.len() <= 6);
        assert_eq!(objects[0], player_at(20, 20));
        let mut items_started = false;
        for (i, object) in objects.iter().enumerate().skip(1) {
            assert!(2 < object.x && object.x < 8 && 2 < object.y && object.y < 8);
            if object.item.is_some() {
                items_started = true;
                assert!(object.always_visible);
            } else {
                assert!(!items_started);
                assert!(object.fighter.is_some() && object.alive);
                for earlier in &objects[1..i] {
                    assert!(earlier.pos() != object.pos());
                }
            }
        }
        total += objects.len() - 1;
    }
    assert!(total > 0);
}

#[test]
fn spawner_menu_maps_entries_to_items() {
    let expected =
        [Item::Heal, Item::Lightning, Item::Freeze, Item::Confuse, Item::Fireball, Item::Blink];
    for (i, item) in expected.iter().enumerate() {
        assert_eq!(item_spawner_menu(Some(i)), Some(*item));
    }
    assert_eq!(item_spawner_menu(None), None);
}

#[test]
fn spawn_item_lands_on_the_first_free_tile() {
    let mut game = arena();
    let mut objects = vec![player_at(1, 1)];
    spawn_item_at_player(&mut game, &mut objects, Item::Heal);
    assert_eq!(objects[1].pos(), (1, 2));
    assert_eq!(objects[1].item, Some(Item::Heal));
    assert_eq!(
        game.messages.messages,
        vec![Message::Spawned { name: "healing potion".into(), x: 1, y: 2 }]
    );
    // items do not block: the next one lands on the same tile
    spawn_item_at_player(&mut game, &mut objects, Item::Sword);
    assert_eq!(objects[2].pos(), (1, 2));
    // a player who is in nobody's way shares its own tile
    objects[0].blocks = false;
    spawn_item_at_player(&mut game, &mut objects, Item::Blink);
    assert_eq!(objects[3].pos(), (1, 1));
}

#[test]
fn spawn_item_reports_when_boxed_in() {
    let mut game = arena();
    game.map = wall_map();
    let mut objects = vec![player_at(0, 0)];
    spawn_item_at_player(&mut game, &mut objects, Item::Heal);
    assert_eq!(objects.len(), 1);
    assert_eq!(game.messages.messages, vec![Message::NoSpawnPosition]);
}

#[test]
fn drop_item_takes_equipment_off_first() {
    let mut game = arena();
    let mut objects = vec![player_at(4, 7)];
    let mut sword = create_floor_item(Item::Sword, 0, 0);
    sword.equip(&mut game.messages);
    game.inventory.push(create_floor_item(Item::Heal, 0, 0));
    game.inventory.push(sword);
    drop_item(1, &mut game, &mut objects);
    assert_eq!(game.inventory.len(), 1);
    assert_eq!(game.inventory[0].item, Some(Item::Heal));
    assert_eq!(objects[1].pos(), (4, 7));
    assert_eq!(objects[1].equipment.unwrap().equipped, false);
    assert_eq!(
        game.messages.messages,
        vec![
            Message::Equipped { name: "sword".into(), slot: Slot::RightHand },
            Message::Dequipped { name: "sword".into(), slot: Slot::RightHand },
            Message::Dropped { name: "sword".into() },
        ]
    );
    drop_item(0, &mut game, &mut objects);
    assert!(game.inventory.is_empty());
    assert_eq!(game.messages.messages[3], Message::Dropped { name: "healing potion".into() });
}

#[test]
fn equipping_replaces_what_is_in_the_slot() {
    let mut game = arena();
    game.inventory.push(create_floor_item(Item::Sword, 0, 0));
    game.inventory.push(create_item(Item::Sword, 0, 0));
    game.inventory.push(create_floor_item(Item::Shield, 0, 0));
    game.inventory.push(create_floor_item(Item::Heal, 0, 0));
    assert_eq!(get_equipped_in_slot(Slot::RightHand, &game.inventory), None);
    assert_eq!(toggle_equipment(0, &mut game), UseResult::UsedAndKept);
    assert_eq!(toggle_equipment(2, &mut game), UseResult::UsedAndKept);
    assert_eq!(get_equipped_in_slot(Slot::RightHand, &game.inventory), Some(0));
    assert_eq!(get_equipped_in_slot(Slot::LeftHand, &game.inventory), Some(2));
    assert_eq!(toggle_equipment(1, &mut game), UseResult::UsedAndKept);
    let worn: Vec<bool> =
        game.inventory.iter().map(|i| i.equipment.map_or(false, |e| e.equipped)).collect();
    assert_eq!(worn, vec![false, true, true, false]);
    assert_eq!(get_equipped_in_slot(Slot::RightHand, &game.inventory), Some(1));
    assert_eq!(toggle_equipment(1, &mut game), UseResult::UsedAndKept);
    assert_eq!(get_equipped_in_slot(Slot::RightHand, &game.inventory), None);
    assert_eq!(toggle_equipment(3, &mut game), UseResult::Cancelled);
    assert_eq!(
        game.messages.messages,
        vec![
            Message::Equipped { name: "sword".into(), slot: Slot::RightHand },
            Message::Equipped { name: "shield".into(), slot: Slot::LeftHand },
            Message::Dequipped { name: "sword".into(), slot: Slot::RightHand },
            Message::Equipped { name: "sword".into(), slot: Slot::RightHand },
            Message::Dequipped { name: "sword".into(), slot: Slot::RightHand },
        ]
    );
}

#[test]
fn heal_at_full_health_is_cancelled() {
    let mut game = arena();
    let fov = all_seeing();
    game.inventory.push(create_floor_item(Item::Heal, 0, 0));
    let mut objects = vec![player_at(5, 5)];
    use_item(0, Target::Nothing, &fov, &mut game, &mut objects);
    assert_eq!(game.inventory.len(), 1);
    assert_eq!(objects[0].fighter.unwrap().hp, 30);
    assert_eq!(
        game.messages.messages,
        vec![Message::AlreadyFullHealth, Message::Cancelled]
    );
    assert_eq!(cast_heal(&mut game, &mut objects), UseResult::Cancelled);
}

#[test]
fn heal_restores_forty_up_to_the_maximum() {
    let mut game = arena();
    let fov = all_seeing();
    game.inventory.push(create_floor_item(Item::Heal, 0, 0));
    let mut objects = vec![player_at(5, 5)];
    if let Some(f) = objects[0].fighter.as_mut() {
        f.base_max_hp = 100;
        f.hp = 10;
    }
    use_item(0, Target::Nothing, &fov, &mut game, &mut objects);
    assert!(game.inventory.is_empty());
    assert_eq!(objects[0].fighter.unwrap().hp, 50);
    assert_eq!(game.messages.messages, vec![Message::WoundsHealed]);
    if let Some(f) = objects[0].fighter.as_mut() {
        f.hp = 90;
    }
    assert_eq!(cast_heal(&mut game, &mut objects), UseResult::UsedUp);
    assert_eq!(objects[0].fighter.unwrap().hp, 100);
}

#[test]
fn lightning_strikes_the_nearer_monster() {
    let mut game = arena();
    let fov = all_seeing();
    let mut objects = vec![
        player_at(5, 5),
        create_monster(MonsterKind::Troll, 9, 5),
        create_monster(MonsterKind::Orc, 5, 7),
    ];
    assert_eq!(closest_monster(&fov, &objects, 5), Some(2));
    assert_eq!(cast_lightning(&fov, &mut game, &mut objects), UseResult::UsedUp);
    assert_eq!(objects[1].fighter.unwrap().hp, 30);
    assert_eq!(objects[2].fighter, None);
    assert_eq!(objects[0].fighter.unwrap().xp, 35);
    assert_eq!(
        game.messages.messages,
        vec![
            Message::LightningStrike { name: "orc".into(), damage: 40 },
            Message::MonsterDied { name: "orc".into(), xp: 35 },
        ]
    );
}

#[test]
fn closest_monster_breaks_ties_by_index_and_needs_view() {
    let fov = all_seeing();
    let objects = vec![
        player_at(5, 5),
        create_monster(MonsterKind::Troll, 5, 8),
        create_monster(MonsterKind::Orc, 8, 5),
    ];
    assert_eq!(closest_monster(&fov, &objects, 5), Some(1));
    assert_eq!(closest_monster(&fov, &objects, 3), Some(1));
    assert_eq!(closest_monster(&fov, &objects, 2), None);
    assert_eq!(closest_monster(&fov, &objects, -1), None);
    let dark = Fov::new(80, 43);
    assert_eq!(closest_monster(&dark, &objects, 5), None);
    // the range is a distance: exactly at it counts, anything beyond does not
    let edge = vec![player_at(0, 0), create_monster(MonsterKind::Orc, 3, 4)];
    assert_eq!(closest_monster(&fov, &edge, 5), Some(1));
    let beyond = vec![player_at(0, 0), create_monster(MonsterKind::Orc, 2, 5)];
    assert_eq!(closest_monster(&fov, &beyond, 5), None);
    let near_miss = vec![player_at(0, 0), create_monster(MonsterKind::Orc, 5, 1)];
    assert_eq!(closest_monster(&fov, &near_miss, 5), None);
    let far = vec![player_at(0, 0), create_monster(MonsterKind::Orc, 6, 0)];
    assert_eq!(closest_monster(&fov, &far, 5), None);
    let here = vec![player_at(0, 0), create_monster(MonsterKind::Orc, 0, 0)];
    assert_eq!(closest_monster(&fov, &here, 0), Some(1));
}

#[test]
fn lightning_without_target_is_cancelled() {
    let mut game = arena();
    let fov = all_seeing();
    game.inventory.push(create_floor_item(Item::Lightning, 0, 0));
    let mut objects = vec![player_at(5, 5), create_monster(MonsterKind::Orc, 20, 20)];
    use_item(0, Target::Nothing, &fov, &mut game, &mut objects);
    assert_eq!(game.inventory.len(), 1);
    assert_eq!(
        game.messages.messages,
        vec![Message::LightningNoTarget, Message::Cancelled]
    );
}

#[test]
fn fireball_burns_exactly_the_blast() {
    let mut game = arena();
    let mut objects = vec![
        player_at(10, 13),
        create_monster(MonsterKind::Orc, 13, 10),
        create_monster(MonsterKind::Orc, 12, 12),
        create_monster(MonsterKind::Orc, 13, 11),
        create_monster(MonsterKind::Troll, 10, 10),
        create_floor_item(Item::Heal, 10, 10),
        create_monster(MonsterKind::Orc, 10, 14),
    ];
    assert_eq!(cast_fireball(Some((10, 10)), &mut game, &mut objects), UseResult::UsedUp);
    // distance exactly 3: burnt
    assert_eq!(objects[0].fighter.unwrap().hp, 5);
    assert_eq!(objects[1].fighter, None);
    // distance sqrt(8): burnt
    assert_eq!(objects[2].fighter, None);
    // distance sqrt(10): spared
    assert_eq!(objects[3].fighter.unwrap().hp, 20);
    assert_eq!(objects[4].fighter.unwrap().hp, 5);
    assert_eq!(objects[5], create_floor_item(Item::Heal, 10, 10));
    assert_eq!(objects[6].fighter.unwrap().hp, 20);
    assert_eq!(objects[0].fighter.unwrap().xp, 70);
    assert_eq!(
        game.messages.messages,
        vec![
            Message::FireballExplodes { radius: 3 },
            Message::FireballBurns { name: "player".into(), damage: 25 },
            Message::FireballBurns { name: "orc".into(), damage: 25 },
            Message::MonsterDied { name: "orc".into(), xp: 35 },
            Message::FireballBurns { name: "orc".into(), damage: 25 },
            Message::MonsterDied { name: "orc".into(), xp: 35 },
            Message::FireballBurns { name: "troll".into(), damage: 25 },
        ]
    );
}

#[test]
fn fireball_can_kill_the_player_without_reward() {
    let mut game = arena();
    let mut objects = vec![player_at(10, 10), create_monster(MonsterKind::Orc, 11, 10)];
    if let Some(f) = objects[0].fighter.as_mut() {
        f.hp = 20;
        f.xp = 9;
    }
    assert_eq!(cast_fireball(Some((10, 10)), &mut game, &mut objects), UseResult::UsedUp);
    assert!(!objects[0].alive);
    assert_eq!(objects[0].fighter.unwrap().hp, -5);
    assert_eq!(objects[0].fighter.unwrap().xp, 44);
    assert_eq!(cast_fireball(None, &mut game, &mut objects), UseResult::Cancelled);
}

#[test]
fn confusion_and_freezing_wrap_the_plain_behaviour() {
    let mut game = arena();
    let mut objects = vec![player_at(5, 5), create_monster(MonsterKind::Orc, 7, 5)];
    assert_eq!(cast_confuse(Some(1), &mut game, &mut objects), UseResult::UsedUp);
    assert_eq!(
        objects[1].ai,
        Some(Ai::Confused { previous_ai: Box::new(Ai::Basic), num_turns: 10 })
    );
    // a second effect replaces the first
    assert_eq!(cast_freeze(Some(1), &mut game, &mut objects), UseResult::UsedUp);
    assert_eq!(
        objects[1].ai,
        Some(Ai::Frozen { previous_ai: Box::new(Ai::Basic), num_turns: 10 })
    );
    objects[1].ai = None;
    assert_eq!(cast_confuse(Some(1), &mut game, &mut objects), UseResult::UsedUp);
    assert_eq!(
        objects[1].ai,
        Some(Ai::Confused { previous_ai: Box::new(Ai::Basic), num_turns: 10 })
    );
    assert_eq!(cast_confuse(None, &mut game, &mut objects), UseResult::Cancelled);
    assert_eq!(cast_freeze(None, &mut game, &mut objects), UseResult::Cancelled);
    assert_eq!(
        game.messages.messages,
        vec![
            Message::ConfuseApplied { name: "orc".into() },
            Message::FreezeApplied { name: "orc".into() },
            Message::ConfuseApplied { name: "orc".into() },
            Message::ConfuseNoTarget,
            Message::FreezeNoTarget,
        ]
    );
}

#[test]
fn blink_needs_a_free_tile() {
    let mut game = arena();
    let mut objects = vec![player_at(5, 5), create_monster(MonsterKind::Orc, 7, 5)];
    assert_eq!(cast_blink(Some((7, 5)), &mut game, &mut objects), UseResult::Cancelled);
    assert_eq!(cast_blink(Some((0, 0)), &mut game, &mut objects), UseResult::Cancelled);
    assert_eq!(objects[0].pos(), (5, 5));
    assert_eq!(cast_blink(None, &mut game, &mut objects), UseResult::Cancelled);
    assert_eq!(cast_blink(Some((9, 9)), &mut game, &mut objects), UseResult::UsedUp);
    assert_eq!(objects[0].pos(), (9, 9));
    assert_eq!(
        game.messages.messages,
        vec![
            Message::BlinkBlocked,
            Message::BlinkBlocked,
            Message::BlinkCancelled,
            Message::BlinkDone
        ]
    );
}

#[test]
fn use_item_dispatches_on_the_kind() {
    let mut game = arena();
    let fov = all_seeing();
    let mut objects = vec![player_at(5, 5), create_monster(MonsterKind::Troll, 8, 5)];
    game.inventory.push(create_floor_item(Item::Fireball, 0, 0));
    game.inventory.push(create_floor_item(Item::Confuse, 0, 0));
    game.inventory.push(create_floor_item(Item::Sword, 0, 0));
    game.inventory.push(Object::new(0, 0, '?', Color::White, "pebble", false));
    game.inventory.push(create_floor_item(Item::Blink, 0, 0));

    assert_eq!(begin_use(0, &mut game), Aim::Tile { max_range: None });
    assert_eq!(begin_use(1, &mut game), Aim::Monster { max_range: Some(8) });
    assert_eq!(begin_use(2, &mut game), Aim::Nothing);
    assert_eq!(begin_use(3, &mut game), Aim::Nothing);
    assert_eq!(begin_use(4, &mut game), Aim::Tile { max_range: Some(100) });
    assert_eq!(game.messages.messages, vec![Message::FireballPrompt, Message::BlinkPrompt]);
    game.messages = Messages::new();

    // a cancelled choice keeps the scroll
    use_item(0, Target::Nothing, &fov, &mut game, &mut objects);
    assert_eq!(game.inventory.len(), 5);
    use_item(3, Target::Nothing, &fov, &mut game, &mut objects);
    use_item(2, Target::Nothing, &fov, &mut game, &mut objects);
    assert!(game.inventory[2].equipment.unwrap().equipped);
    use_item(1, Target::Monster(1), &fov, &mut game, &mut objects);
    assert_eq!(game.inventory.len(), 4);
    assert!(matches!(objects[1].ai, Some(Ai::Confused { .. })));
    use_item(0, Target::Tile(9, 5), &fov, &mut game, &mut objects);
    assert_eq!(game.inventory.len(), 3);
    assert_eq!(objects[1].fighter.unwrap().hp, 5);
    use_item(2, Target::Tile(6, 6), &fov, &mut game, &mut objects);
    assert_eq!(game.inventory.len(), 2);
    assert_eq!(objects[0].pos(), (6, 6));
    assert_eq!(
        game.messages.messages,
        vec![
            Message::Cancelled,
            Message::CannotUse { name: "pebble".into() },
            Message::Equipped { name: "sword".into(), slot: Slot::RightHand },
            Message::ConfuseApplied { name: "troll".into() },
            Message::FireballExplodes { radius: 3 },
            Message::FireballBurns { name: "troll".into(), damage: 25 },
            Message::BlinkDone,
        ]
    );
}

#[test]
fn input_keeps_the_latest_mouse_and_key() {
    let mut input = Input::new();
    let mouse = Mouse { cx: 3, cy: 4, lbutton_pressed: true, rbutton_pressed: false };
    input.record(Some(InputEvent::Key { escape: true }));
    assert!(input.escape);
    input.record(Some(InputEvent::Mouse(mouse)));
    assert_eq!(input, Input { mouse, escape: true });
    input.record(None);
    assert_eq!(input, Input { mouse, escape: false });
}

#[test]
fn tile_targeting_needs_view_and_range() {
    let objects = vec![player_at(5, 5)];
    let mut fov = Fov::new(80, 43);
    fov.set(8, 9, true);
    fov.set(9, 9, true);
    assert_eq!(target_tile(&click(8, 9), &fov, &objects, Some(5)), Targeting::Chosen((8, 9)));
    assert_eq!(target_tile(&click(9, 9), &fov, &objects, Some(5)), Targeting::Pending);
    assert_eq!(target_tile(&click(9, 9), &fov, &objects, None), Targeting::Chosen((9, 9)));
    assert_eq!(target_tile(&click(7, 7), &fov, &objects, None), Targeting::Pending);
    assert_eq!(target_tile(&click(-1, 3), &fov, &objects, None), Targeting::Pending);
    assert_eq!(target_tile(&click(80, 3), &fov, &objects, None), Targeting::Pending);
    let hover = Input { mouse: Mouse { cx: 8, cy: 9, lbutton_pressed: false, rbutton_pressed: false }, escape: false };
    assert_eq!(target_tile(&hover, &fov, &objects, None), Targeting::Pending);
    let escape = Input { escape: true, ..hover };
    assert_eq!(target_tile(&escape, &fov, &objects, None), Targeting::Cancelled);
    let right = Input { mouse: Mouse { cx: 7, cy: 7, lbutton_pressed: true, rbutton_pressed: true }, escape: false };
    assert_eq!(target_tile(&right, &fov, &objects, None), Targeting::Cancelled);
    let both = Input { mouse: Mouse { cx: 8, cy: 9, lbutton_pressed: true, rbutton_pressed: true }, escape: true };
    assert_eq!(target_tile(&both, &fov, &objects, None), Targeting::Chosen((8, 9)));
}

#[test]
fn monster_targeting_asks_again_on_an_empty_tile() {
    let fov = all_seeing();
    let objects = vec![
        player_at(5, 5),
        create_floor_item(Item::Heal, 6, 5),
        create_monster(MonsterKind::Orc, 6, 5),
        create_monster(MonsterKind::Troll, 6, 5),
    ];
    assert_eq!(target_monster(&click(6, 5), &fov, &objects, Some(8)), Targeting::Chosen(2));
    assert_eq!(target_monster(&click(7, 5), &fov, &objects, Some(8)), Targeting::Pending);
    assert_eq!(target_monster(&click(5, 5), &fov, &objects, Some(8)), Targeting::Pending);
    let escape = Input { escape: true, ..Input::new() };
    assert_eq!(target_monster(&escape, &fov, &objects, Some(8)), Targeting::Cancelled);
    assert_eq!(first_target_at(&objects, 6, 5), Some(2));
    assert_eq!(first_target_at(&objects, 5, 5), None);
}

#[test]
fn lightning_is_cancelled_beyond_the_range_and_for_corpses() {
    let mut game = arena();
    let fov = all_seeing();
    let mut objects = vec![player_at(0, 0), create_monster(MonsterKind::Orc, 2, 5)];
    assert_eq!(cast_lightning(&fov, &mut game, &mut objects), UseResult::Cancelled);
    assert_eq!(objects[1], create_monster(MonsterKind::Orc, 2, 5));
    assert_eq!(objects[0], player_at(0, 0));

    let mut objects = vec![player_at(5, 5), create_monster(MonsterKind::Orc, 6, 5)];
    assert_eq!(cast_lightning(&fov, &mut game, &mut objects), UseResult::UsedUp);
    assert_eq!(objects[0].fighter.unwrap().xp, 35);
    let corpse_hp = objects[1].fighter;
    assert_eq!(corpse_hp, None);
    // the corpse is neither struck nor paid for again
    assert_eq!(cast_lightning(&fov, &mut game, &mut objects), UseResult::Cancelled);
    assert_eq!(objects[0].fighter.unwrap().xp, 35);
    assert_eq!(
        game.messages.messages,
        vec![
            Message::LightningNoTarget,
            Message::LightningStrike { name: "orc".into(), damage: 40 },
            Message::MonsterDied { name: "orc".into(), xp: 35 },
            Message::LightningNoTarget,
        ]
    );
}

#[test]
fn heal_at_full_health_near_the_top_of_the_range_is_cancelled() {
    let mut game = arena();
    let fov = all_seeing();
    game.inventory.push(create_floor_item(Item::Heal, 0, 0));
    let mut objects = vec![player_at(5, 5)];
    if let Some(f) = objects[0].fighter.as_mut() {
        f.base_max_hp = i32::MAX;
        f.hp = i32::MAX;
    }
    assert!(roguelike::item::use_fits(0, Target::Nothing, &fov, &game, &objects));
    use_item(0, Target::Nothing, &fov, &mut game, &mut objects);
    assert_eq!(game.inventory.len(), 1);
    assert_eq!(game.inventory[0], create_floor_item(Item::Heal, 0, 0));
    assert_eq!(objects[0].fighter.unwrap().hp, i32::MAX);
    assert_eq!(
        game.messages.messages,
        vec![Message::AlreadyFullHealth, Message::Cancelled]
    );
}

#[test]
fn fireball_spares_corpses_and_pays_once() {
    let mut game = arena();
    let mut objects = vec![
        player_at(20, 20),
        create_monster(MonsterKind::Orc, 10, 10),
        create_monster(MonsterKind::Troll, 11, 10),
    ];
    assert_eq!(cast_fireball(Some((10, 10)), &mut game, &mut objects), UseResult::UsedUp);
    assert_eq!(objects[0].fighter.unwrap().xp, 35);
    let corpse = Object {
        glyph: '%',
        color: Color::DarkRed,
        blocks: false,
        alive: false,
        fighter: None,
        ai: None,
        ..create_monster(MonsterKind::Orc, 10, 10)
    };
    assert_eq!(objects[1], corpse);
    assert_eq!(objects[2].fighter.unwrap().hp, 5);
    assert_eq!(cast_fireball(Some((10, 10)), &mut game, &mut objects), UseResult::UsedUp);
    assert_eq!(objects[1], corpse);
    assert_eq!(objects[0].fighter.unwrap().xp, 135);
    assert_eq!(objects[0].pos(), (20, 20));
    assert_eq!(objects.len(), 3);
}
