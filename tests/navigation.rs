use game_plugin::camera::{cursor_to_world_camera, CameraTransform, MouseScreenCoords, WindowSize};
use game_plugin::geometry::{isqrt, GridPosition, Point, TileSize};
use game_plugin::map::GridMap;
use game_plugin::mouse_actions::{set_click_actions, ButtonState, ClickOnScreenEvent, MouseInput};
use game_plugin::player::{IsMoving, Player, Transition};
use game_plugin::systems::{in_map_bounds, move_player, start_move, tick_step};

fn four_by_four() -> GridMap {
    GridMap::new(Point::new(0, 0), TileSize { x: 50_000, y: 50_000 }, 4, 4).unwrap()
}

fn step_at_60_fps() -> u64 {
    tick_step(150_000, 16_667)
}

fn button(pressed: bool, just_pressed: bool) -> MouseInput {
    MouseInput { left: ButtonState { pressed, just_pressed, just_released: false } }
}

#[test]
fn twenty_ticks_reach_next_tile() {
    let map = four_by_four();
    let mut players = vec![Player::spawn(&map, GridPosition::new(2, 2))];
    let step = step_at_60_fps();
    assert_eq!(step, 2_500);
    for tick in 0..20 {
        start_move(&map, Some((1, 0)), &mut players);
        move_player(&map, step, &mut players);
        if tick < 19 {
            assert!(matches!(players[0].moving, IsMoving::Transitioning(_)));
        }
    }
    assert_eq!(players[0].grid, GridPosition::new(3, 2));
    assert_eq!(players[0].moving, IsMoving::Idle);
    assert_eq!(players[0].position, Point::new(175_000, 125_000));
}

#[test]
fn four_ticks_midway_position() {
    let map = four_by_four();
    let mut p = Player::spawn(&map, GridPosition::new(2, 2));
    p.start_move(&map, Some((1, 0)));
    for _ in 0..4 {
        p.advance(&map, 2_500);
    }
    assert_eq!(p.position, Point::new(135_000, 125_000));
    assert_eq!(p.grid, GridPosition::new(2, 2));
}

#[test]
fn no_neighbor_past_edge() {
    let map = four_by_four();
    let mut p = Player::spawn(&map, GridPosition::new(3, 2));
    let before = p;
    p.start_move(&map, Some((1, 0)));
    assert_eq!(p.moving, IsMoving::Idle);
    assert_eq!(p.grid, GridPosition::new(3, 2));
    assert_eq!(p, before);
}

#[test]
fn click_on_tile_center_starts_transition() {
    let map = four_by_four();
    let mut players = vec![Player::spawn(&map, GridPosition::new(2, 2))];
    let events = vec![ClickOnScreenEvent(Point::new(25_000, 75_000))];
    in_map_bounds(&map, &events, &mut players);
    match players[0].moving {
        IsMoving::Transitioning(tr) => {
            assert_eq!(tr.target, Point::new(25_000, 75_000));
            assert_eq!(tr.from, Point::new(125_000, 125_000));
            assert_eq!(tr.traveled, 0);
        }
        IsMoving::Idle => panic!("the click did not start a transition"),
    }
}

#[test]
fn click_snaps_to_tile_center() {
    let map = four_by_four();
    let mut p = Player::spawn(&map, GridPosition::new(0, 0));
    p.resolve_click(&map, Point::new(149_999, 100_000));
    match p.moving {
        IsMoving::Transitioning(tr) => {
            assert_eq!(tr.target, Point::new(125_000, 125_000));
            assert_eq!(tr.length, 141_421);
        }
        IsMoving::Idle => panic!("the click did not start a transition"),
    }
}

#[test]
fn idle_consistency_after_arrival() {
    let map = four_by_four();
    let mut p = Player::spawn(&map, GridPosition::new(1, 1));
    assert_eq!(p.position, map.tile_center(p.grid));
    p.start_move(&map, Some((0, 1)));
    for _ in 0..30 {
        p.advance(&map, 2_500);
    }
    assert_eq!(p.moving, IsMoving::Idle);
    assert_eq!(p.grid, GridPosition::new(1, 2));
    assert_eq!(p.position, map.tile_center(p.grid));
}

#[test]
fn single_flight_ignores_new_commands() {
    let map = four_by_four();
    let mut p = Player::spawn(&map, GridPosition::new(1, 1));
    p.start_move(&map, Some((1, 0)));
    p.advance(&map, 2_500);
    let during = p;
    p.start_move(&map, Some((0, 1)));
    assert_eq!(p, during);
    p.resolve_click(&map, Point::new(25_000, 25_000));
    assert_eq!(p, during);
}

#[test]
fn arrival_resync_on_diagonal() {
    let map = four_by_four();
    let mut p = Player::spawn(&map, GridPosition::new(0, 0));
    p.start_move(&map, Some((1, 1)));
    let length = match p.moving {
        IsMoving::Transitioning(Transition { length, .. }) => length,
        IsMoving::Idle => panic!("no transition"),
    };
    assert_eq!(length, 70_710);
    let ticks = (length + 2_499) / 2_500;
    for _ in 0..ticks {
        p.advance(&map, 2_500);
    }
    assert_eq!(p.moving, IsMoving::Idle);
    assert_eq!(p.grid, GridPosition::new(1, 1));
    assert_eq!(p.position, Point::new(75_000, 75_000));
}

#[test]
fn arrival_within_threshold() {
    let map = four_by_four();
    let mut p = Player::spawn(&map, GridPosition::new(0, 0));
    p.start_move(&map, Some((1, 0)));
    p.advance(&map, 49_600);
    assert_eq!(p.moving, IsMoving::Idle);
    assert_eq!(p.grid, GridPosition::new(1, 0));
    let mut q = Player::spawn(&map, GridPosition::new(0, 0));
    q.start_move(&map, Some((1, 0)));
    q.advance(&map, 49_599);
    assert!(matches!(q.moving, IsMoving::Transitioning(_)));
    assert_eq!(q.position, Point::new(74_599, 25_000));
}

#[test]
fn blocked_neighbor_is_ignored() {
    let mut map = four_by_four();
    map.set_open(GridPosition::new(2, 1), false);
    let mut p = Player::spawn(&map, GridPosition::new(1, 1));
    p.start_move(&map, Some((1, 0)));
    assert_eq!(p.moving, IsMoving::Idle);
    p.start_move(&map, Some((0, 1)));
    assert!(matches!(p.moving, IsMoving::Transitioning(_)));
}

#[test]
fn neighbor_lookup() {
    let map = four_by_four();
    let g = GridPosition::new(0, 0);
    assert_eq!(map.neighbor(g, 1, 1), Some(GridPosition::new(1, 1)));
    assert_eq!(map.neighbor(g, -1, 0), None);
    assert_eq!(map.neighbor(g, 0, 0), None);
    assert_eq!(map.neighbor(g, 2, 0), None);
    assert!(!map.tile_is_open(GridPosition::new(4, 0)));
}

#[test]
fn no_direction_is_a_no_op() {
    let map = four_by_four();
    let mut p = Player::spawn(&map, GridPosition::new(1, 1));
    let before = p;
    p.start_move(&map, None);
    assert_eq!(p, before);
}

#[test]
fn clicks_outside_bounds_are_dropped() {
    let map = four_by_four();
    let mut players = vec![Player::spawn(&map, GridPosition::new(1, 1))];
    let before = players.clone();
    let events = vec![
        ClickOnScreenEvent(Point::new(-1, 10_000)),
        ClickOnScreenEvent(Point::new(200_000, 10_000)),
        ClickOnScreenEvent(Point::new(10_000, 200_000)),
        ClickOnScreenEvent(Point::new(10_000, -5)),
    ];
    in_map_bounds(&map, &events, &mut players);
    assert_eq!(players, before);
}

#[test]
fn centered_map_accepts_negative_side() {
    let map = GridMap::centered(TileSize { x: 50_000, y: 50_000 }, 8, 8).unwrap();
    assert_eq!(map.origin, Point::new(-200_000, -200_000));
    let mut p = Player::spawn(&map, GridPosition::new(4, 4));
    assert_eq!(p.position, Point::new(25_000, 25_000));
    p.resolve_click(&map, Point::new(-190_000, -160_000));
    match p.moving {
        IsMoving::Transitioning(tr) => assert_eq!(tr.target, Point::new(-175_000, -175_000)),
        IsMoving::Idle => panic!("the click did not start a transition"),
    }
    let mut q = Player::spawn(&map, GridPosition::new(4, 4));
    q.resolve_click(&map, Point::new(-200_001, 0));
    assert_eq!(q.moving, IsMoving::Idle);
}

#[test]
fn first_accepted_click_wins() {
    let map = four_by_four();
    let mut players = vec![
        Player::spawn(&map, GridPosition::new(0, 0)),
        Player::spawn(&map, GridPosition::new(3, 3)),
    ];
    let events = vec![
        ClickOnScreenEvent(Point::new(-10, -10)),
        ClickOnScreenEvent(Point::new(60_000, 10_000)),
        ClickOnScreenEvent(Point::new(10_000, 60_000)),
    ];
    in_map_bounds(&map, &events, &mut players);
    for p in &players {
        match p.moving {
            IsMoving::Transitioning(tr) => assert_eq!(tr.target, Point::new(75_000, 25_000)),
            IsMoving::Idle => panic!("the click did not start a transition"),
        }
    }
}

#[test]
fn map_dimensions_checked() {
    let size = TileSize { x: 50_000, y: 50_000 };
    assert!(GridMap::new(Point::new(0, 0), size, 0, 4).is_none());
    assert!(GridMap::new(Point::new(0, 0), TileSize { x: 0, y: 5 }, 4, 4).is_none());
    assert!(GridMap::new(Point::new(0, 0), size, 2_000, 2_000).is_none());
    assert!(GridMap::new(Point::new(2_147_400_000, 0), size, 4, 4).is_none());
    assert!(GridMap::new(Point::new(-2_147_483_648, 0), size, 4, 4).is_some());
    assert!(GridMap::centered(TileSize { x: 4_000_000_000, y: 1 }, 2, 1).is_none());
}

#[test]
fn tile_center_formula() {
    let size = TileSize { x: 50_000, y: 30_001 };
    let c = GridPosition::new(3, 2).tile_center_translation(size);
    assert_eq!(c, Point::new(175_000, 75_002));
}

#[test]
fn integer_square_root() {
    assert_eq!(isqrt(0), 0);
    assert_eq!(isqrt(1), 1);
    assert_eq!(isqrt(15), 3);
    assert_eq!(isqrt(16), 4);
    assert_eq!(isqrt(5_000_000_000), 70_710);
    assert_eq!(isqrt(0x3_ffff_ffff_ffff_ffff), 0x1_ffff_ffff);
}

#[test]
fn tick_step_values() {
    assert_eq!(tick_step(150_000, 16_667), 2_500);
    assert_eq!(tick_step(150_000, 0), 0);
    assert_eq!(tick_step(u64::MAX, u64::MAX), u64::MAX);
}

#[test]
fn cursor_mapped_through_camera() {
    let mut coords = MouseScreenCoords::new();
    let window = WindowSize { width: 800_000, height: 600_000 };
    let camera = CameraTransform { translation: Point::new(1_000, -2_000), scale: 2_000 };
    cursor_to_world_camera(&mut coords, Some(Point::new(500_000, 100_000)), window, camera);
    assert_eq!(coords.position, Point::new(201_000, -402_000));
    cursor_to_world_camera(&mut coords, None, window, camera);
    assert_eq!(coords.position, Point::new(201_000, -402_000));
    let unit = CameraTransform { translation: Point::new(0, 0), scale: 1_000 };
    cursor_to_world_camera(&mut coords, Some(Point::new(399_999, 300_001)), window, unit);
    assert_eq!(coords.position, Point::new(-1, 1));
}

#[test]
fn click_emitted_while_held() {
    let mut coords = MouseScreenCoords::new();
    coords.position = Point::new(5, 7);
    let click = Some(ClickOnScreenEvent(Point::new(5, 7)));
    assert_eq!(set_click_actions(&coords, &button(true, true)), click);
    assert_eq!(set_click_actions(&coords, &button(true, false)), click);
    assert_eq!(set_click_actions(&coords, &button(false, false)), None);
}
