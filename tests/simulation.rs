use hookclimb::entities::{
    Anchor, Board, Player, ANCHOR_PULL, GRAVITY, LOOKAHEAD, PLAYER_PULL, SELECT_RADIUS,
    SPAWN_MAX_GAP, START_VX, START_VY, START_X, START_Y,
};
use hookclimb::geometry::{distance, isqrt, midpoint, pull, Point};
use hookclimb::hook::{apply_forces, attach, pick, release, select};
use hookclimb::lifecycle::{despawn_below, highest_anchor, spawn_if_needed};
use hookclimb::physics::{apply_gravity, check_too_low, collide_walls, move_player};
use hookclimb::world::{GameState, TickInput, World};

fn pt(x: i64, y: i64) -> Point {
    Point { x, y }
}

fn still(x: i64, y: i64) -> Anchor {
    Anchor { position: pt(x, y), velocity: pt(0, 0), selected: false, hooked: false }
}

fn idle() -> TickInput {
    TickInput { cursor: None, pressed: false, released: false }
}

fn player_at(x: i64, y: i64, vx: i64, vy: i64, max_height: i64) -> Player {
    Player { position: pt(x, y), velocity: pt(vx, vy), max_height, dead: false }
}

fn playing(player: Player, anchors: Vec<Anchor>, board: Board) -> World {
    let mut w = World::new(board, true);
    w.state = GameState::Playing;
    w.player = Some(player);
    w.anchors = anchors;
    w
}

#[test]
fn isqrt_exact_values() {
    assert_eq!(isqrt(0), 0);
    assert_eq!(isqrt(1), 1);
    assert_eq!(isqrt(24), 4);
    assert_eq!(isqrt(25), 5);
    assert_eq!(isqrt(26), 5);
    assert_eq!(isqrt(1 << 124), 1 << 62);
}

#[test]
fn distance_and_midpoint() {
    assert_eq!(distance(pt(0, 0), pt(3000, 4000)), 5000);
    assert_eq!(distance(pt(1, 1), pt(2, 2)), 1);
    assert_eq!(midpoint(pt(0, 0), pt(3, -3)), pt(1, -1));
    assert_eq!(midpoint(pt(-10, 4), pt(20, 8)), pt(5, 6));
}

#[test]
fn pull_is_scaled_direction() {
    assert_eq!(pull(pt(0, 0), pt(3000, 4000), 250), pt(150, 200));
    assert_eq!(pull(pt(0, 0), pt(0, -7), 40), pt(0, -40));
    assert_eq!(pull(pt(10, 10), pt(10, 10), 250), pt(0, 0));
}

#[test]
fn gravity_lowers_vertical_velocity() {
    let mut p = player_at(0, 0, 7, 100, 0);
    apply_gravity(&mut p);
    assert_eq!(p.velocity, pt(7, 100 - GRAVITY));
}

#[test]
fn tick_without_hook_applies_gravity_only() {
    let mut w = playing(player_at(0, 0, 300, 1000, 0), vec![still(0, 400_000)], Board::standard());
    w.tick_with(&idle(), 0, 330_000);
    let p = w.player.unwrap();
    assert_eq!(p.velocity, pt(300, 1000 - GRAVITY));
    assert_eq!(p.position, pt(300, 1000 - GRAVITY));
}

#[test]
fn best_height_follows_the_player_up_only() {
    let mut p = player_at(0, 0, 0, 500, 100);
    move_player(&mut p);
    assert_eq!(p.max_height, 500);
    p.velocity = pt(0, -800);
    move_player(&mut p);
    assert_eq!(p.position.y, -300);
    assert_eq!(p.max_height, 500);
}

#[test]
fn best_height_over_ticks() {
    let mut w = playing(player_at(0, 0, 0, 1000, 0), vec![], Board::standard());
    let mut last = 0;
    for _ in 0..40 {
        w.tick_with(&idle(), 0, 330_000);
        let p = w.player.unwrap();
        assert!(p.max_height >= last);
        assert!(p.max_height >= p.position.y);
        last = p.max_height;
    }
    // the player rose 910 + 820 + ... + 10 before falling back
    assert_eq!(last, 5060);
}

#[test]
fn selection_radius_is_strict() {
    let mut anchors = vec![
        still(0, 0),
        still(0, SELECT_RADIUS),
        still(SELECT_RADIUS - 1, 0),
        still(18_000, 24_000),
        still(17_999, 24_000),
    ];
    select(&mut anchors, pt(0, 0));
    let flags: Vec<bool> = anchors.iter().map(|a| a.selected).collect();
    assert_eq!(flags, vec![true, false, true, false, true]);
    select(&mut anchors, pt(1_000_000, 0));
    assert!(anchors.iter().all(|a| !a.selected));
}

#[test]
fn press_hooks_nearest_selected() {
    let mut anchors = vec![still(0, 10_000), still(0, 5_000), still(0, -5_000)];
    let cursor = pt(0, 0);
    select(&mut anchors, cursor);
    assert_eq!(pick(&anchors, Some(cursor)), Some(1));
    assert!(attach(&mut anchors, Some(cursor)));
    let hooks: Vec<bool> = anchors.iter().map(|a| a.hooked).collect();
    assert_eq!(hooks, vec![false, true, false]);
}

#[test]
fn press_without_selection_lets_go() {
    let mut anchors = vec![still(0, 0), still(100_000, 0)];
    anchors[1].hooked = true;
    assert!(!attach(&mut anchors, None));
    assert!(anchors.iter().all(|a| !a.hooked));
}

#[test]
fn press_twice_keeps_the_hook() {
    let mut anchors = vec![still(0, 10_000), still(0, 20_000), still(0, 90_000)];
    let cursor = Some(pt(0, 12_000));
    select(&mut anchors, pt(0, 12_000));
    attach(&mut anchors, cursor);
    let once = anchors.clone();
    attach(&mut anchors, cursor);
    assert_eq!(anchors, once);
    assert!(anchors[0].hooked && !anchors[1].hooked && !anchors[2].hooked);
}

#[test]
fn held_press_over_two_ticks_keeps_the_hook() {
    let press = TickInput { cursor: Some(pt(0, 100_000)), pressed: true, released: false };
    let mut w = playing(
        player_at(0, 0, 0, 0, 0),
        vec![still(0, 100_000), still(50_000, 500_000)],
        Board::standard(),
    );
    let ev = w.tick_with(&press, 0, 330_000);
    assert!(ev.attached);
    assert!(w.anchors[0].hooked);
    let ev = w.tick_with(&press, 0, 330_000);
    assert!(ev.attached);
    assert!(w.anchors[0].hooked && !w.anchors[1].hooked);
}

#[test]
fn release_lets_go_of_everything() {
    let mut anchors = vec![still(0, 0), still(5, 5)];
    anchors[0].hooked = true;
    release(&mut anchors);
    assert!(anchors.iter().all(|a| !a.hooked));
}

#[test]
fn hook_forces_and_damping() {
    let mut p = player_at(0, 0, 0, 0, 0);
    let mut hooked = still(0, 100_000);
    hooked.hooked = true;
    let mut loose = still(0, 300_000);
    loose.velocity = pt(1000, -55);
    let mut anchors = vec![hooked, loose];
    apply_forces(&mut p, &mut anchors);
    assert_eq!(p.velocity, pt(0, PLAYER_PULL));
    assert_eq!(anchors[0].velocity, pt(0, -ANCHOR_PULL));
    assert_eq!(anchors[1].velocity, pt(900, -49));
}

#[test]
fn hook_on_a_coinciding_anchor_pulls_nothing() {
    let mut p = player_at(10, 10, 3, 4, 10);
    let mut a = still(10, 10);
    a.hooked = true;
    let mut anchors = vec![a];
    apply_forces(&mut p, &mut anchors);
    assert_eq!(p.velocity, pt(3, 4));
    assert_eq!(anchors[0].velocity, pt(0, 0));
}

#[test]
fn wall_reflection() {
    let board = Board::standard();
    let mut p = player_at(board.right + 1000, 0, 5000, 0, 0);
    assert!(collide_walls(&mut p, &board));
    assert!(p.position.x <= board.right);
    assert!(p.velocity.x < 0);
    assert_eq!(p.position.x, board.right);
    assert_eq!(p.velocity.x, -2500);
}

#[test]
fn wall_reflection_left_and_inside() {
    let board = Board::standard();
    let mut p = player_at(board.left - 1, 0, -3, 0, 0);
    assert!(collide_walls(&mut p, &board));
    assert_eq!(p.position.x, board.left);
    assert_eq!(p.velocity.x, 2);
    let mut q = player_at(board.right, 0, 5, 0, 0);
    assert!(!collide_walls(&mut q, &board));
    assert_eq!(q.velocity.x, 5);
}

#[test]
fn highest_anchor_defaults_to_zero() {
    assert_eq!(highest_anchor(&vec![]), 0);
    assert_eq!(highest_anchor(&vec![still(0, -5), still(0, -9)]), 0);
    assert_eq!(highest_anchor(&vec![still(0, 7), still(0, 90), still(0, 3)]), 90);
}

#[test]
fn spawn_only_when_lookahead_is_short() {
    let board = Board::standard();
    let p = player_at(0, 0, 0, 0, 1000);
    let mut anchors = vec![still(0, 1000 + LOOKAHEAD)];
    assert!(!spawn_if_needed(&p, &mut anchors, &board, 0, 400_000));
    assert_eq!(anchors.len(), 1);
    let mut anchors = vec![still(0, 1000 + LOOKAHEAD - 1)];
    assert!(spawn_if_needed(&p, &mut anchors, &board, -7, 400_000));
    assert_eq!(anchors.len(), 2);
    assert_eq!(anchors[1], still(-7, 401_000));
}

#[test]
fn lookahead_restored_after_each_tick() {
    let mut w = playing(player_at(0, 0, 0, 2000, 0), vec![], Board::standard());
    for k in 0..50 {
        w.tick_with(&idle(), 1000 * k, 330_000 + 1000 * k);
        let best = w.player.unwrap().max_height;
        let top = w.anchors.iter().map(|a| a.position.y).max().unwrap();
        assert!(top - best >= LOOKAHEAD);
    }
}

#[test]
fn despawn_drops_only_anchors_below_the_floor() {
    let board = Board::standard();
    let p = player_at(0, 0, 0, 0, 500_000);
    let floor = 500_000 + board.bottom_offset;
    let mut anchors = vec![still(1, floor - 1), still(2, floor), still(3, floor + 1), still(4, -1_000_000)];
    despawn_below(&p, &mut anchors, &board);
    assert_eq!(anchors, vec![still(2, floor), still(3, floor + 1)]);
}

#[test]
fn no_anchor_left_below_the_floor_after_a_tick() {
    let board = Board::standard();
    let mut w = playing(
        player_at(0, 400_000, 0, 0, 400_000),
        vec![still(0, 0), still(0, 59_999), still(0, 60_000), still(0, 900_000)],
        board,
    );
    w.tick_with(&idle(), 0, 330_000);
    let best = w.player.unwrap().max_height;
    assert_eq!(best, 400_000);
    let ys: Vec<i64> = w.anchors.iter().map(|a| a.position.y).collect();
    assert_eq!(ys, vec![60_000, 900_000]);
    assert!(w.anchors.iter().all(|a| a.position.y >= best + board.bottom_offset));
}

#[test]
fn state_reset_on_entering_playing() {
    let mut w = playing(player_at(50, 4_000_000, 1, 1, 5_000_000), vec![still(0, 5_100_000)], Board::standard());
    w.player = Some(Player { dead: true, ..w.player.unwrap() });
    w.state = GameState::Menu;
    assert!(w.replay());
    assert_eq!(w.state, GameState::Playing);
    let p = w.player.unwrap();
    assert_eq!(p.max_height, 0);
    assert!(!p.dead);
    assert_eq!(p.position, pt(START_X, START_Y));
    assert_eq!(p.velocity, pt(START_VX, START_VY));
    assert!(w.anchors.is_empty());
}

#[test]
fn replay_outside_the_menu_does_nothing() {
    let mut w = playing(player_at(0, 0, 0, 0, 7), vec![still(0, 9)], Board::standard());
    assert!(!w.replay());
    assert_eq!(w.state, GameState::Playing);
    assert_eq!(w.player.unwrap().max_height, 7);
    assert_eq!(w.anchors.len(), 1);
}

#[test]
fn death_trigger_scenario() {
    let board = Board { left: -200_000, right: 200_000, bottom_offset: -350_000, top_offset: 330_000 };
    let mut w = playing(player_at(0, -60_000, 0, 0, 300_000), vec![still(0, 700_000)], board);
    let ev = w.tick_with(&idle(), 0, 330_000);
    assert!(ev.fell);
    assert!(!ev.left_playing);
    assert!(w.player.unwrap().dead);
    assert_eq!(w.state, GameState::Playing);
    let ev = w.tick_with(&idle(), 0, 330_000);
    assert!(ev.left_playing);
    assert_eq!(w.state, GameState::Menu);
    assert!(w.anchors.is_empty());
    assert_eq!(w.score(), 300_000);
}

#[test]
fn not_too_low_at_the_limit() {
    let board = Board::standard();
    let mut p = player_at(0, -40_000, 0, 0, 300_000);
    assert!(!check_too_low(&mut p, &board));
    assert!(!p.dead);
    p.position.y = -40_001;
    assert!(check_too_low(&mut p, &board));
    assert!(p.dead);
}

#[test]
fn game_without_menu_ends() {
    let mut w = World::new(Board::standard(), false);
    w.tick(&idle());
    assert_eq!(w.state, GameState::Playing);
    let mut p = w.player.unwrap();
    p.dead = true;
    p.max_height = 1234;
    w.player = Some(p);
    let ev = w.tick(&idle());
    assert!(ev.left_playing);
    assert_eq!(w.state, GameState::Ended);
    assert!(w.player.is_none());
    assert_eq!(w.score(), 1234);
    w.tick(&idle());
    assert_eq!(w.state, GameState::Ended);
}

#[test]
fn warm_up_starts_a_round() {
    let mut w = World::new(Board::standard(), true);
    assert_eq!(w.state, GameState::WarmUp);
    w.tick(&idle());
    assert_eq!(w.state, GameState::Playing);
    assert_eq!(w.player, Some(Player::start()));
    assert!(w.anchors.is_empty());
}

#[test]
fn random_spawns_stay_in_their_band() {
    let board = Board::standard();
    let mut xs = Vec::new();
    for _ in 0..20 {
        let mut w = playing(player_at(0, 0, 0, 0, 0), vec![], board);
        w.tick(&idle());
        assert_eq!(w.anchors.len(), 1);
        let a = w.anchors[0];
        assert!(board.left <= a.position.x && a.position.x < board.right);
        assert!(board.top_offset <= a.position.y && a.position.y < SPAWN_MAX_GAP);
        xs.push(a.position.x);
    }
    assert!(xs.iter().any(|&x| x != board.left));
}

#[test]
fn hook_line_geometry() {
    let mut w = playing(player_at(0, 0, 0, 0, 0), vec![still(3000, 4000), still(0, 900_000)], Board::standard());
    assert!(w.hook_line().is_none());
    w.anchors[0].hooked = true;
    let l = w.hook_line().unwrap();
    assert_eq!(l.start, pt(0, 0));
    assert_eq!(l.end, pt(3000, 4000));
    assert_eq!(l.midpoint, pt(1500, 2000));
    assert_eq!(l.length, 5000);
}
