use roguelike::constants::{MAP_HEIGHT, MAP_WIDTH};
use roguelike::generate::{connect_rooms, make_map, make_map_with_rooms, room_fits, wall_map};
use roguelike::color::Color;
use roguelike::map::{create_h_tunnel, create_room, create_v_tunnel, is_blocked, Rect, Tile};
use roguelike::mut_two;
use roguelike::object::Object;

fn player() -> Object {
    let mut p = Object::new(0, 0, '@', Color::White, "player", true);
    p.alive = true;
    p
}

#[test]
fn mut_two_returns_both_elements_in_either_order() {
    let mut v = vec![10, 20, 30, 40];
    {
        let (a, b) = mut_two(0, 3, &mut v);
        assert_eq!((*a, *b), (10, 40));
        *a = 1;
        *b = 4;
    }
    assert_eq!(v, vec![1, 20, 30, 4]);
    {
        let (a, b) = mut_two(2, 1, &mut v);
        assert_eq!((*a, *b), (30, 20));
        *a = 3;
        *b = 2;
    }
    assert_eq!(v, vec![1, 2, 3, 4]);
}

#[test]
fn tiles_are_wall_or_floor() {
    assert_eq!(Tile::empty(), Tile { blocked: false, explored: false, block_sight: false });
    assert_eq!(Tile::wall(), Tile { blocked: true, explored: false, block_sight: true });
}

#[test]
fn rect_new_center_and_intersection() {
    let r = Rect::new(2, 3, 6, 8);
    assert_eq!(r, Rect { x1: 2, y1: 3, x2: 8, y2: 11 });
    assert_eq!(r.center(), (5, 7));
    let odd = Rect::new(0, 0, 7, 9);
    assert_eq!(odd.center(), (3, 4));
    let negative = Rect { x1: -3, y1: -5, x2: 0, y2: 0 };
    assert_eq!(negative.center(), (-1, -2));
    // touching edges count as overlap
    assert!(r.intersects_with(&Rect::new(8, 11, 3, 3)));
    assert!(!r.intersects_with(&Rect::new(9, 3, 3, 3)));
    assert!(!r.intersects_with(&Rect::new(2, 12, 3, 3)));
    assert!(r.intersects_with(&r));
}

#[test]
fn wall_map_is_solid_and_full_size() {
    let map = wall_map();
    assert_eq!(map.len(), MAP_WIDTH as usize);
    for column in &map {
        assert_eq!(column.len(), MAP_HEIGHT as usize);
        for tile in column {
            assert_eq!(*tile, Tile::wall());
        }
    }
}

#[test]
fn create_room_digs_only_the_inside() {
    let mut map = wall_map();
    let room = Rect::new(10, 10, 6, 6);
    create_room(room, &mut map);
    for x in 0..MAP_WIDTH {
        for y in 0..MAP_HEIGHT {
            let inside = 10 < x && x < 16 && 10 < y && y < 16;
            let expected = if inside { Tile::empty() } else { Tile::wall() };
            assert_eq!(map[x as usize][y as usize], expected);
        }
    }
}

#[test]
fn tunnels_dig_both_ends_in_either_direction() {
    let mut map = wall_map();
    create_h_tunnel(7, 3, 5, &mut map);
    create_v_tunnel(2, 6, 9, &mut map);
    for x in 0..MAP_WIDTH {
        for y in 0..MAP_HEIGHT {
            let dug = (y == 5 && 3 <= x && x <= 7) || (x == 9 && 2 <= y && y <= 6);
            assert_eq!(map[x as usize][y as usize].blocked, !dug);
        }
    }
}

#[test]
fn connect_rooms_turns_in_the_chosen_order() {
    let mut first = wall_map();
    connect_rooms((3, 4), (10, 8), true, &mut first);
    let mut second = wall_map();
    connect_rooms((3, 4), (10, 8), false, &mut second);
    for x in 0..MAP_WIDTH {
        for y in 0..MAP_HEIGHT {
            let h_first = (y == 4 && 3 <= x && x <= 10) || (x == 10 && 4 <= y && y <= 8);
            let v_first = (x == 3 && 4 <= y && y <= 8) || (y == 8 && 3 <= x && x <= 10);
            assert_eq!(first[x as usize][y as usize].blocked, !h_first);
            assert_eq!(second[x as usize][y as usize].blocked, !v_first);
        }
    }
}

#[test]
fn room_fits_rejects_overlap() {
    let rooms = vec![Rect::new(0, 0, 6, 6), Rect::new(20, 20, 8, 8)];
    assert!(room_fits(&Rect::new(7, 0, 6, 6), &rooms));
    assert!(!room_fits(&Rect::new(6, 0, 6, 6), &rooms));
    assert!(!room_fits(&Rect::new(22, 22, 6, 6), &rooms));
    assert!(room_fits(&Rect::new(3, 3, 6, 6), &Vec::new()));
}

#[test]
fn is_blocked_by_walls_and_blocking_actors() {
    let mut map = wall_map();
    create_room(Rect::new(0, 0, 6, 6), &mut map);
    let mut objects = vec![player()];
    objects[0].set_pos(2, 2);
    let mut potion = Object::new(3, 3, '!', Color::Violet, "healing potion", false);
    potion.always_visible = true;
    objects.push(potion);
    assert!(is_blocked(0, 0, &map, &objects));
    assert!(is_blocked(2, 2, &map, &objects));
    assert!(!is_blocked(3, 3, &map, &objects));
    assert!(!is_blocked(4, 4, &map, &objects));
}

fn reachable(map: &Vec<Vec<Tile>>, start: (i32, i32)) -> Vec<Vec<bool>> {
    let mut seen = vec![vec![false; MAP_HEIGHT as usize]; MAP_WIDTH as usize];
    let mut stack = vec![start];
    while let Some((x, y)) = stack.pop() {
        if x < 0 || y < 0 || x >= MAP_WIDTH || y >= MAP_HEIGHT {
            continue;
        }
        if seen[x as usize][y as usize] || map[x as usize][y as usize].blocked {
            continue;
        }
        seen[x as usize][y as usize] = true;
        stack.push((x + 1, y));
        stack.push((x - 1, y));
        stack.push((x, y + 1));
        stack.push((x, y - 1));
    }
    seen
}

#[test]
fn generated_rooms_are_open_disjoint_and_reachable() {
    for _ in 0..50 {
        let mut objects = vec![player(), Object::new(5, 5, 'x', Color::Red, "leftover", true)];
        let (map, rooms) = make_map_with_rooms(&mut objects);
        assert!(!rooms.is_empty());
        assert!(rooms.len() <= 30);
        let start = rooms[0].center();
        assert_eq!(objects[0].pos(), start);
        assert_eq!(objects[0].name, "player");
        let seen = reachable(&map, start);
        for (i, room) in rooms.iter().enumerate() {
            assert!(0 <= room.x1 && room.x2 < MAP_WIDTH && 0 <= room.y1 && room.y2 < MAP_HEIGHT);
            let (w, h) = (room.x2 - room.x1, room.y2 - room.y1);
            assert!(6 <= w && w <= 10 && 6 <= h && h <= 10);
            for other in &rooms[i + 1..] {
                assert!(!room.intersects_with(other));
            }
            for x in room.x1 + 1..room.x2 {
                for y in room.y1 + 1..room.y2 {
                    assert!(!map[x as usize][y as usize].blocked);
                    assert!(seen[x as usize][y as usize]);
                }
            }
        }
        for x in 0..MAP_WIDTH {
            for y in 0..MAP_HEIGHT {
                let tile = map[x as usize][y as usize];
                assert!(tile == Tile::wall() || tile == Tile::empty());
                assert_eq!(!tile.blocked, seen[x as usize][y as usize]);
            }
        }
        let stairs = objects.last().unwrap();
        assert_eq!(stairs.name, "stairs");
        assert_eq!(stairs.pos(), rooms[rooms.len() - 1].center());
        assert!(stairs.always_visible && !stairs.blocks);
        // nothing is open on the border
        for x in 0..MAP_WIDTH {
            assert!(map[x as usize][0].blocked && map[x as usize][(MAP_HEIGHT - 1) as usize].blocked);
        }
        for y in 0..MAP_HEIGHT {
            assert!(map[0][y as usize].blocked && map[(MAP_WIDTH - 1) as usize][y as usize].blocked);
        }
        // nothing is open but room floors and the corridors between
        // the middles of rooms dug one after the other
        for x in 0..MAP_WIDTH {
            for y in 0..MAP_HEIGHT {
                if map[x as usize][y as usize].blocked {
                    continue;
                }
                let in_room =
                    rooms.iter().any(|r| r.x1 < x && x < r.x2 && r.y1 < y && y < r.y2);
                let between = |a: i32, b: i32, v: i32| (a <= v && v <= b) || (b <= v && v <= a);
                let on_corridor = rooms.windows(2).any(|w| {
                    let (px, py) = w[0].center();
                    let (nx, ny) = w[1].center();
                    (y == py && between(px, nx, x))
                        || (x == nx && between(py, ny, y))
                        || (x == px && between(py, ny, y))
                        || (y == ny && between(px, nx, x))
                });
                assert!(in_room || on_corridor);
            }
        }
        let spawns = &objects[1..objects.len() - 1];
        for (j, later) in spawns.iter().enumerate() {
            for earlier in &spawns[..j] {
                assert!(!(earlier.blocks && earlier.pos() == later.pos()));
            }
        }
        for object in &objects[1..objects.len() - 1] {
            assert!(object.name != "leftover");
            assert!(rooms.iter().any(|r| r.x1 < object.x
                && object.x < r.x2
                && r.y1 < object.y
                && object.y < r.y2));
        }
    }
}

#[test]
fn generation_draws_vary() {
    let mut widths = Vec::new();
    let mut counts = Vec::new();
    for _ in 0..40 {
        let mut objects = vec![player()];
        let (_, rooms) = make_map_with_rooms(&mut objects);
        widths.push(rooms[0].x2 - rooms[0].x1);
        counts.push(objects.len());
    }
    assert!(widths.iter().any(|w| *w != widths[0]));
    assert!(counts.iter().any(|c| *c != counts[0]));
}

#[test]
fn make_map_keeps_only_the_player() {
    let mut objects = vec![player(), Object::new(1, 1, 'o', Color::Red, "orc", true)];
    let map = make_map(&mut objects);
    assert_eq!(map.len(), MAP_WIDTH as usize);
    assert_eq!(objects[0].name, "player");
    assert!(!map[objects[0].x as usize][objects[0].y as usize].blocked);
    assert_eq!(objects.last().unwrap().name, "stairs");
}
