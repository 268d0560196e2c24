use roguelike::color::Color;
use roguelike::game::Fov;
use roguelike::generate::wall_map;
use roguelike::map::Tile;
use roguelike::messages::Message;
use roguelike::meta::{upgrade_choice, PermanentUpgrades, Upgrade, UpgradeChoice};
use roguelike::object::{distance_squared, Ai, Object, Slot};
use roguelike::ui::{draw_order, get_names_under_mouse, inventory_menu, mark_explored, menu};

#[test]
fn new_upgrades_are_empty() {
    assert_eq!(
        PermanentUpgrades::new(),
        PermanentUpgrades { echoes: 0, bonus_hp: 0, bonus_power: 0, bonus_defense: 0 }
    );
}

#[test]
fn upgrade_costs_follow_the_bonuses() {
    let u = PermanentUpgrades { echoes: 1000, bonus_hp: 6, bonus_power: 4, bonus_defense: 2 };
    assert_eq!(u.cost(Upgrade::Fortitude), 80);
    assert_eq!(u.cost(Upgrade::Ferocity), 300);
    assert_eq!(u.cost(Upgrade::Resilience), 200);
    assert_eq!(PermanentUpgrades::new().cost(Upgrade::Fortitude), 50);
    assert_eq!(PermanentUpgrades::new().cost(Upgrade::Ferocity), 100);
}

#[test]
fn purchase_pays_and_raises_by_two() {
    let mut u = PermanentUpgrades { echoes: 250, bonus_hp: 0, bonus_power: 0, bonus_defense: 0 };
    assert!(u.purchase(Upgrade::Fortitude));
    assert_eq!(u, PermanentUpgrades { echoes: 200, bonus_hp: 2, bonus_power: 0, bonus_defense: 0 });
    assert!(u.purchase(Upgrade::Ferocity));
    assert_eq!(u, PermanentUpgrades { echoes: 100, bonus_hp: 2, bonus_power: 2, bonus_defense: 0 });
    assert!(!u.purchase(Upgrade::Ferocity));
    assert!(u.purchase(Upgrade::Resilience));
    assert_eq!(u, PermanentUpgrades { echoes: 0, bonus_hp: 2, bonus_power: 2, bonus_defense: 2 });
    assert!(!u.purchase(Upgrade::Fortitude));
    assert_eq!(u.echoes, 0);
}

#[test]
fn upgrade_menu_entries() {
    assert_eq!(upgrade_choice(Some(0)), UpgradeChoice::Buy(Upgrade::Fortitude));
    assert_eq!(upgrade_choice(Some(1)), UpgradeChoice::Buy(Upgrade::Ferocity));
    assert_eq!(upgrade_choice(Some(2)), UpgradeChoice::Buy(Upgrade::Resilience));
    assert_eq!(upgrade_choice(Some(3)), UpgradeChoice::Return);
    assert_eq!(upgrade_choice(Some(4)), UpgradeChoice::Stay);
    assert_eq!(upgrade_choice(None), UpgradeChoice::Stay);
}

#[test]
fn menu_keys_pick_lettered_entries() {
    assert_eq!(menu('a', 3), Some(0));
    assert_eq!(menu('C', 3), Some(2));
    assert_eq!(menu('d', 3), None);
    assert_eq!(menu('z', 26), Some(25));
    assert_eq!(menu('1', 26), None);
    assert_eq!(menu('\u{e9}', 26), None);
    assert_eq!(menu('a', 0), None);
    assert_eq!(inventory_menu(0, 'a'), None);
    assert_eq!(inventory_menu(2, 'b'), Some(1));
    assert_eq!(inventory_menu(2, 'c'), None);
}

#[test]
fn exploring_is_never_taken_back() {
    let mut map = wall_map();
    map[3][4].explored = true;
    let mut fov = Fov::new(80, 43);
    fov.set(5, 6, true);
    mark_explored(&mut map, &fov);
    assert!(map[3][4].explored);
    assert!(map[5][6].explored);
    assert_eq!(map[5][6], Tile { blocked: true, explored: true, block_sight: true });
    assert!(!map[0][0].explored);
    mark_explored(&mut map, &Fov::new(80, 43));
    assert!(map[3][4].explored && map[5][6].explored);
}

#[test]
fn blocking_actors_are_drawn_last() {
    let mut map = wall_map();
    map[9][9].explored = true;
    let mut fov = Fov::new(80, 43);
    fov.set(1, 1, true);
    fov.set(2, 2, true);
    let mut stairs = Object::new(9, 9, '<', Color::White, "stairs", false);
    stairs.always_visible = true;
    let mut hidden_stairs = Object::new(8, 8, '<', Color::White, "stairs", false);
    hidden_stairs.always_visible = true;
    let objects = vec![
        Object::new(1, 1, '@', Color::White, "player", true),
        Object::new(1, 1, '!', Color::Violet, "potion", false),
        Object::new(5, 5, 'o', Color::Red, "orc", true),
        stairs,
        Object::new(2, 2, 'T', Color::Red, "troll", true),
        hidden_stairs,
    ];
    assert_eq!(draw_order(&objects, &fov, &map), vec![1, 3, 0, 4]);
    assert_eq!(get_names_under_mouse(1, 1, &objects, &fov), vec![0, 1]);
    assert_eq!(get_names_under_mouse(5, 5, &objects, &fov), Vec::<usize>::new());
}

#[test]
fn small_helpers() {
    assert_eq!(distance_squared(0, 0, 3, 4), 25);
    assert_eq!(distance_squared(i32::MIN, i32::MIN, i32::MAX, i32::MAX), 2 * (u32::MAX as i128) * (u32::MAX as i128));
    assert_eq!(Slot::LeftHand.label(), "left hand");
    assert_eq!(Slot::RightHand.label(), "right hand");
    assert_eq!(Message::PlayerDied.color(), Color::Red);
    assert_eq!(Message::WoundsHealed.color(), Color::LightViolet);
    assert_eq!(
        Ai::Confused { previous_ai: Box::new(Ai::Basic), num_turns: 3 }.into_underlying(),
        Ai::Basic
    );
    let o = Object::new(1, 2, 'x', Color::Sky, "thing", true);
    assert_eq!(o.distance_squared(4, 6), 25);
    assert_eq!(o.distance_squared_to(&Object::new(1, 4, 'y', Color::Sky, "other", true)), 4);
    assert!(!o.alive && o.level == 1 && o.blocks);
}
