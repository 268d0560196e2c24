use roguelike::ai::turn_fits;
use roguelike::color::Color;
use roguelike::combat::{attack_fits, is_i32, stat_fits, Stat};
use roguelike::game::{Fov, Game};
use roguelike::generate::wall_map;
use roguelike::item::{use_fits, Target};
use roguelike::map::{create_room, tile_exists, Rect};
use roguelike::messages::{Message, Messages};
use roguelike::meta::{PermanentUpgrades, Upgrade};
use roguelike::object::{Ai, DeathCallback, Fighter, Item, Object};
use roguelike::player::{pick_item_up, player_move_or_attack, step_fits};
use roguelike::spawn::{create_floor_item, create_monster, place_objects, MonsterKind};

fn player_at(x: i32, y: i32) -> Object {
    let mut p = Object::new(x, y, '@', Color::White, "player", true);
    p.alive = true;
    p.fighter = Some(Fighter {
        base_max_hp: 30,
        hp: 30,
        base_defense: 0,
        base_power: 5,
        xp: 0,
        on_death: DeathCallback::Player,
    });
    p
}

fn arena() -> Game {
    let mut map = wall_map();
    create_room(Rect::new(0, 0, 20, 20), &mut map);
    Game { map, messages: Messages::new(), inventory: Vec::new(), dungeon_level: 1 }
}

fn all_seeing() -> Fov {
    let mut fov = Fov::new(80, 43);
    for x in 0..80 {
        for y in 0..43 {
            fov.set(x, y, true);
        }
    }
    fov
}

#[test]
fn player_walks_or_hits() {
    let mut game = arena();
    let mut objects = vec![
        player_at(5, 5),
        create_floor_item(Item::Heal, 6, 5),
        create_monster(MonsterKind::Orc, 7, 5),
    ];
    assert!(step_fits(1, 0, &game, &objects));
    player_move_or_attack(1, 0, &mut game, &mut objects);
    assert_eq!(objects[0].pos(), (6, 5));
    assert_eq!(game.messages.len(), 0);
    player_move_or_attack(1, 0, &mut game, &mut objects);
    assert_eq!(objects[0].pos(), (6, 5));
    assert_eq!(objects[2].fighter.unwrap().hp, 15);
    assert_eq!(
        game.messages.messages,
        vec![Message::Attack { attacker: "player".into(), target: "orc".into(), damage: 5 }]
    );
    objects[0].set_pos(1, 1);
    player_move_or_attack(-1, 0, &mut game, &mut objects);
    assert_eq!(objects[0].pos(), (1, 1));
}

#[test]
fn picking_up_moves_the_item_into_the_inventory() {
    let mut game = arena();
    let mut objects = vec![
        player_at(5, 5),
        create_floor_item(Item::Heal, 5, 5),
        create_monster(MonsterKind::Orc, 7, 5),
        create_floor_item(Item::Sword, 8, 8),
    ];
    pick_item_up(1, &mut game, &mut objects);
    assert_eq!(objects.len(), 3);
    assert_eq!(objects[1].name, "sword");
    assert_eq!(objects[2].name, "orc");
    assert_eq!(game.inventory.len(), 1);
    assert_eq!(game.inventory[0].item, Some(Item::Heal));
    assert_eq!(
        game.messages.messages,
        vec![Message::PickedUp { name: "healing potion".into() }]
    );
    for _ in 0..25 {
        game.inventory.push(create_floor_item(Item::Blink, 0, 0));
    }
    pick_item_up(1, &mut game, &mut objects);
    assert_eq!(objects.len(), 3);
    assert_eq!(game.inventory.len(), 26);
    assert_eq!(game.messages.messages[1], Message::InventoryFull { name: "sword".into() });
}

#[test]
fn guards_accept_ordinary_play() {
    let game = arena();
    let fov = all_seeing();
    let mut confused = create_monster(MonsterKind::Orc, 10, 10);
    confused.ai = Some(Ai::Confused { previous_ai: Box::new(Ai::Basic), num_turns: 3 });
    let objects = vec![player_at(5, 5), create_monster(MonsterKind::Orc, 6, 5), confused];
    assert!(attack_fits(0, 1, &objects, &game));
    assert!(attack_fits(1, 0, &objects, &game));
    assert!(turn_fits(1, &fov, &game, &objects));
    assert!(turn_fits(2, &fov, &game, &objects));
    assert!(stat_fits(0, Stat::Power, &objects, &game));
    assert!(step_fits(0, 1, &game, &objects));
    assert!(tile_exists(&game.map, 79, 42));
    assert!(is_i32(i32::MAX as i128) && is_i32(i32::MIN as i128));
}

#[test]
fn guards_refuse_what_cannot_be_done() {
    let mut game = arena();
    let fov = all_seeing();
    let mut confused = create_monster(MonsterKind::Orc, 0, 0);
    confused.ai = Some(Ai::Confused { previous_ai: Box::new(Ai::Basic), num_turns: 3 });
    let mut frail = create_monster(MonsterKind::Orc, 6, 5);
    if let Some(f) = frail.fighter.as_mut() {
        f.hp = i32::MIN + 2;
    }
    let objects = vec![player_at(5, 5), frail, confused];
    assert!(!attack_fits(0, 0, &objects, &game));
    assert!(!attack_fits(0, 3, &objects, &game));
    assert!(!attack_fits(0, 1, &objects, &game));
    assert!(!turn_fits(0, &fov, &game, &objects));
    assert!(!turn_fits(3, &fov, &game, &objects));
    // a confused monster in the corner could stumble off the grid
    assert!(!turn_fits(2, &fov, &game, &objects));
    assert!(!stat_fits(3, Stat::Power, &objects, &game));
    assert!(!step_fits(1, 0, &game, &objects));
    assert!(!step_fits(1, 0, &game, &[]));
    assert!(!tile_exists(&game.map, -1, 0));
    assert!(!tile_exists(&game.map, 80, 0));
    assert!(!tile_exists(&game.map, 0, 43));
    assert!(!is_i32(i32::MAX as i128 + 1) && !is_i32(i32::MIN as i128 - 1));

    game.inventory.push(create_floor_item(Item::Fireball, 0, 0));
    game.inventory.push(create_floor_item(Item::Blink, 0, 0));
    game.inventory.push(create_floor_item(Item::Confuse, 0, 0));
    game.inventory.push(create_floor_item(Item::Heal, 0, 0));
    assert!(!use_fits(0, Target::Tile(6, 5), &fov, &game, &objects));
    assert!(use_fits(0, Target::Tile(15, 15), &fov, &game, &objects));
    assert!(use_fits(0, Target::Nothing, &fov, &game, &objects));
    assert!(!use_fits(1, Target::Tile(80, 5), &fov, &game, &objects));
    assert!(use_fits(1, Target::Tile(8, 5), &fov, &game, &objects));
    assert!(!use_fits(2, Target::Monster(3), &fov, &game, &objects));
    assert!(use_fits(2, Target::Monster(2), &fov, &game, &objects));
    assert!(use_fits(3, Target::Nothing, &fov, &game, &objects));
    assert!(!use_fits(4, Target::Nothing, &fov, &game, &objects));
    assert!(!use_fits(3, Target::Nothing, &fov, &game, &[]));
}

#[test]
fn level_and_purchase_guards() {
    let mut player = player_at(0, 0);
    assert!(player.level_up_fits());
    player.level = i32::MAX;
    assert!(!player.level_up_fits());
    let rich = PermanentUpgrades { echoes: i32::MAX, bonus_hp: 0, bonus_power: i32::MAX, bonus_defense: -40_000_000 };
    assert!(rich.cost_fits(Upgrade::Fortitude));
    assert!(!rich.cost_fits(Upgrade::Ferocity));
    assert!(!rich.purchase_fits(Upgrade::Ferocity));
    assert!(rich.purchase_fits(Upgrade::Fortitude));
    // a negative price would push the currency past what can be held
    assert!(rich.cost_fits(Upgrade::Resilience));
    assert!(!rich.purchase_fits(Upgrade::Resilience));
}

#[test]
fn both_kinds_of_monster_are_drawn_orcs_more_often() {
    let game = arena();
    let room = Rect::new(0, 0, 10, 10);
    let (mut orcs, mut trolls, mut items) = (0, 0, 0);
    for _ in 0..400 {
        let mut objects = vec![player_at(15, 15)];
        place_objects(room, &game.map, &mut objects);
        for o in &objects[1..] {
            match o.name.as_str() {
                "orc" => orcs += 1,
                "troll" => trolls += 1,
                _ => items += 1,
            }
        }
    }
    assert!(trolls > 0);
    assert!(orcs > trolls);
    assert!(items > 0);
}
