use ubsg::board::Mino;
use ubsg::engine::{Engine, GameStates, GameloopStates, Intent};
use ubsg::piece::Piece;
use ubsg::randomizers::{Randomizer, TGM};
use ubsg::rotation::{LockDelayMode, RotationSystem};

const J: usize = 1;
const T: usize = 5;
const O: usize = 6;

/// A default game that only spawns what the test queues.
fn game() -> Engine {
    let mut e = Engine::default();
    e.board.show_next = 0;
    e.state = GameStates::Gameplay;
    e.gameloop_state = GameloopStates::Falling;
    e
}

fn queue(e: &mut Engine, kind: usize) {
    let p = Piece::create(&e.rotation_system, kind, e.board.width, e.board.height);
    e.next_queue.push(p);
}

fn occupied(e: &Engine) -> usize {
    e.board.board.iter().map(|r| r.iter().filter(|c| c.is_some()).count()).sum()
}

#[test]
fn five_squares_fill_the_bottom_and_clear() {
    let mut e = game();
    for (i, dx) in [-4i8, -2, 0, 2, 4].iter().enumerate() {
        queue(&mut e, O);
        assert!(e.spawn_routine());
        assert_eq!(e.current_piece.unwrap().position, (3, 18));
        assert!(e.move_current_piece((*dx, 0)));
        e.receive_input(Intent::HardDrop);
        assert!(e.current_piece.is_none());
        assert_eq!(e.gameloop_state, GameloopStates::AfterLocking);
        assert_eq!(occupied(&e), 4 * (i + 1));
        if i < 4 {
            assert!(!e.board.row_is_full(0));
        }
    }
    assert!(e.board.row_is_full(0));
    assert!(e.board.row_is_full(1));
    e.fixed_update();
    assert_eq!(e.gameloop_state, GameloopStates::Spawn);
    assert_eq!(occupied(&e), 0);
}

#[test]
fn clearing_keeps_the_rest_of_the_board() {
    let mut e = game();
    for dx in [-4i8, -2, 0, 2, 4] {
        if dx == 4 {
            e.board.board[2][1] = Some(Mino { color: 3 });
        }
        queue(&mut e, O);
        assert!(e.spawn_routine());
        assert!(e.move_current_piece((dx, 0)));
        e.receive_input(Intent::HardDrop);
    }
    e.after_locking_routine();
    assert_eq!(occupied(&e), 1);
    assert_eq!(e.board.board[0][1], Some(Mino { color: 3 }));
}

#[test]
fn only_the_last_kick_fits() {
    let mut e = game();
    let free = [(4, 5), (4, 6), (4, 7), (4, 8), (4, 9), (5, 7), (5, 8), (6, 8)];
    for y in 0..16 {
        for x in 0..10 {
            if !free.contains(&(x, y)) {
                e.board.board[y][x] = Some(Mino { color: 0 });
            }
        }
    }
    let p = Piece { id: J, color: 1, position: (4, 6), rotation: 0 };
    e.current_piece = Some(p);
    assert!(e.position_is_valid((4, 6), 0));
    for (dx, dy) in [(0isize, 0isize), (-1, 0), (-1, 1), (0, -2)] {
        assert!(!e.position_is_valid((4 + dx, 6 + dy), 1));
    }
    assert!(e.rotate_current_piece(1));
    let q = e.current_piece.unwrap();
    assert_eq!(q.rotation, 1);
    assert_eq!(q.position, (3, 4));
}

#[test]
fn the_same_rotation_picks_the_same_kick() {
    let mut a = game();
    let mut b = game();
    for e in [&mut a, &mut b] {
        e.board.board[5][6] = Some(Mino { color: 0 });
        e.current_piece = Some(Piece { id: T, color: 5, position: (4, 2), rotation: 0 });
        assert!(e.rotate_current_piece(-1));
    }
    assert_eq!(a.current_piece, b.current_piece);
}

#[test]
fn failed_rotation_changes_nothing() {
    let mut e = game();
    for y in 0..16 {
        for x in 0..10 {
            e.board.board[y][x] = Some(Mino { color: 0 });
        }
    }
    e.board.board[1][0] = None;
    e.board.board[1][1] = None;
    e.board.board[1][2] = None;
    e.board.board[1][3] = None;
    e.current_piece = Some(Piece { id: 3, color: 3, position: (0, -1), rotation: 0 });
    assert!(e.position_is_valid((0, -1), 0));
    assert!(!e.rotate_current_piece(1));
    assert_eq!(e.current_piece.unwrap().position, (0, -1));
    assert_eq!(e.current_piece.unwrap().rotation, 0);
}

#[test]
fn limited_resets_lock_after_the_allowance() {
    let mut e = game();
    assert_eq!(e.rotation_system.lock_delay_mode, LockDelayMode::ResetOnMovementLimited);
    assert_eq!(e.lock_delay, 30);
    assert_eq!(e.lock_delay_resets, 15);
    queue(&mut e, T);
    assert!(e.spawn_sequence());
    assert!(e.sonic_drop());
    let mut granted = 0;
    let mut locked_at = 0;
    for tick in 1..=40 {
        let before = e.lock_delay_resets_left;
        let dx = if tick % 2 == 0 { 1 } else { -1 };
        assert!(e.move_current_piece((dx, 0)));
        if e.lock_delay_resets_left < before {
            granted += 1;
        }
        if e.gameloop() {
            locked_at = tick;
            break;
        }
    }
    assert_eq!(granted, 15);
    assert_eq!(locked_at, 16);
    assert!(e.current_piece.is_none());
}

#[test]
fn lock_delay_counts_down_while_resting() {
    let mut e = game();
    e.lock_delay = 3;
    e.lock_delay_left = 3;
    queue(&mut e, T);
    assert!(e.spawn_sequence());
    assert!(e.sonic_drop());
    assert!(!e.gameloop());
    assert!(!e.gameloop());
    assert!(e.gameloop());
    assert!(e.current_piece.is_none());
}

#[test]
fn disabled_lock_delay_locks_on_landing() {
    let mut e = game();
    e.rotation_system.lock_delay_mode = LockDelayMode::Disabled;
    queue(&mut e, T);
    assert!(e.spawn_sequence());
    assert!(e.sonic_drop());
    assert!(e.gameloop());
}

#[test]
fn gravity_falls_whole_cells_and_keeps_the_remainder() {
    let mut e = game();
    e.gravity = 5400;
    queue(&mut e, T);
    assert!(e.spawn_sequence());
    let y = e.current_piece.unwrap().position.1;
    assert!(!e.gameloop());
    assert_eq!(e.current_piece.unwrap().position.1, y - 1);
    assert_eq!(e.g_bucket, 1800);
    assert!(!e.gameloop());
    assert_eq!(e.current_piece.unwrap().position.1, y - 3);
    assert_eq!(e.g_bucket, 0);
}

#[test]
fn soft_drop_multiplies_gravity() {
    let mut e = game();
    e.gravity = 360;
    e.receive_input(Intent::SoftDropOn);
    queue(&mut e, T);
    assert!(e.spawn_sequence());
    let y = e.current_piece.unwrap().position.1;
    assert!(!e.gameloop());
    assert_eq!(e.current_piece.unwrap().position.1, y - 2);
    e.receive_input(Intent::SoftDropOff);
    assert!(!e.handling.sdf_active);
}

#[test]
fn hard_drop_matches_repeated_soft_drop() {
    let mut a = game();
    let mut b = game();
    for e in [&mut a, &mut b] {
        e.board.board[0][5] = Some(Mino { color: 2 });
        queue(e, J);
        assert!(e.spawn_sequence());
    }
    let lowest = a.lowest_point_under_current_piece();
    assert!(a.sonic_drop());
    assert_eq!(a.current_piece.unwrap().position.1, lowest);
    assert!(a.lock_current_piece());
    while b.move_current_piece((0, -1)) {}
    assert_eq!(b.current_piece.unwrap().position.1, lowest);
    assert!(b.lock_current_piece());
    assert_eq!(a.board.board, b.board.board);
}

#[test]
fn lock_fails_while_the_piece_can_fall() {
    let mut e = game();
    queue(&mut e, T);
    assert!(e.spawn_sequence());
    assert!(!e.lock_current_piece());
    assert!(e.current_piece.is_some());
    assert_eq!(occupied(&e), 0);
}

#[test]
fn sonic_drop_fails_when_resting_or_empty() {
    let mut e = game();
    assert!(!e.sonic_drop());
    queue(&mut e, T);
    assert!(e.spawn_sequence());
    assert!(e.sonic_drop());
    assert!(!e.sonic_drop());
}

#[test]
fn moves_without_a_piece_or_shift_succeed_unchanged() {
    let mut e = game();
    assert!(e.move_current_piece((1, 0)));
    queue(&mut e, T);
    assert!(e.spawn_sequence());
    let p = e.current_piece;
    assert!(e.move_current_piece((0, 0)));
    assert_eq!(e.current_piece, p);
    assert!(!e.move_current_piece((-10, 0)));
    assert_eq!(e.current_piece, p);
    assert!(!e.position_is_valid((3, 18), 4));
}

#[test]
fn spawn_on_a_blocked_board_ends_the_game() {
    let mut e = game();
    for x in 0..10 {
        e.board.board[19][x] = Some(Mino { color: 0 });
        e.board.board[20][x] = Some(Mino { color: 0 });
    }
    queue(&mut e, T);
    assert!(!e.spawn_routine());
    assert_eq!(e.state, GameStates::GameOver);
    assert!(e.current_piece.is_none());
}

#[test]
fn instant_gravity_spawns_at_the_lowest_row() {
    let mut e = game();
    e.gravity = 72000;
    queue(&mut e, O);
    assert!(e.spawn_sequence());
    assert_eq!(e.current_piece.unwrap().position.1, -2);
}

#[test]
fn hold_parks_the_piece_and_swaps_once_per_spawn() {
    let mut e = game();
    queue(&mut e, T);
    queue(&mut e, J);
    queue(&mut e, O);
    assert!(e.spawn_sequence());
    assert!(e.move_current_piece((2, -3)));
    e.receive_input(Intent::Hold);
    assert_eq!(e.current_piece.unwrap().id, J);
    let held = e.hold.unwrap();
    assert_eq!(held.id, T);
    assert_eq!(held.position, (3, 18));
    assert!(!e.hold_current_piece());
    assert!(e.lock_current_piece() || e.sonic_drop());
    assert!(e.spawn_sequence());
    assert_eq!(e.current_piece.unwrap().id, O);
    assert!(e.hold_current_piece());
    assert_eq!(e.current_piece.unwrap().id, T);
    assert_eq!(e.hold.unwrap().id, O);
}

#[test]
fn hold_disabled_by_rule() {
    let mut e = game();
    e.hold_enabled = false;
    queue(&mut e, T);
    assert!(e.spawn_sequence());
    assert!(!e.hold_current_piece());
    assert!(e.hold.is_none());
}

#[test]
fn queue_refills_past_the_preview_count() {
    let mut e = Engine::default();
    e.init("ARS", Randomizer::TGM(TGM::create(2024)));
    assert_eq!(e.rotation_system.lock_delay_mode, LockDelayMode::ResetOnYChange);
    assert_eq!(e.state, GameStates::Gameplay);
    assert_eq!(e.gameloop_state, GameloopStates::Falling);
    assert_eq!(e.current_piece.unwrap().id, 1);
    assert!(e.next_queue.len() >= 3);
    assert_eq!(e.next_queue[0].id, 5);
}

#[test]
fn spawn_delay_waits_before_spawning() {
    let mut e = game();
    e.spawn_delay = 2;
    e.gameloop_state = GameloopStates::AfterLocking;
    queue(&mut e, T);
    e.fixed_update();
    assert_eq!(e.gameloop_state, GameloopStates::Spawn);
    e.fixed_update();
    e.fixed_update();
    assert!(e.current_piece.is_none());
    e.fixed_update();
    assert_eq!(e.gameloop_state, GameloopStates::Falling);
    assert_eq!(e.current_piece.unwrap().id, T);
}

#[test]
fn autorepeat_moves_the_falling_piece() {
    let mut e = game();
    queue(&mut e, T);
    assert!(e.spawn_sequence());
    e.receive_input(Intent::MoveRightPressed);
    assert_eq!(e.current_piece.unwrap().position.0, 4);
    e.das_and_arr(199_000);
    assert_eq!(e.current_piece.unwrap().position.0, 4);
    e.das_and_arr(1_000);
    assert_eq!(e.current_piece.unwrap().position.0, 5);
    e.receive_input(Intent::MoveRightReleased);
    e.das_and_arr(1_000_000);
    assert_eq!(e.current_piece.unwrap().position.0, 5);
}

#[test]
fn unlimited_resets_never_force_a_lock() {
    let mut e = game();
    e.rotation_system.lock_delay_mode = LockDelayMode::ResetOnMovement;
    queue(&mut e, T);
    assert!(e.spawn_sequence());
    assert!(e.sonic_drop());
    for tick in 0..100 {
        let dx = if tick % 2 == 0 { 1 } else { -1 };
        assert!(e.move_current_piece((dx, 0)));
        assert!(!e.gameloop());
    }
    assert_eq!(e.lock_delay_resets_left, 15);
}

#[test]
fn y_change_mode_ignores_sideways_moves() {
    let mut e = game();
    e.rotation_system.lock_delay_mode = LockDelayMode::ResetOnYChange;
    e.lock_delay = 3;
    e.lock_delay_left = 3;
    queue(&mut e, T);
    assert!(e.spawn_sequence());
    assert!(e.sonic_drop());
    assert!(e.move_current_piece((1, 0)));
    assert!(!e.gameloop());
    assert!(e.move_current_piece((-1, 0)));
    assert!(!e.gameloop());
    assert!(e.move_current_piece((1, 0)));
    assert!(e.gameloop());
}

#[test]
fn y_change_mode_refills_when_the_piece_lifts_off() {
    let mut e = game();
    e.rotation_system.lock_delay_mode = LockDelayMode::ResetOnYChange;
    e.lock_delay = 3;
    e.lock_delay_left = 3;
    for x in 0..6 {
        e.board.board[0][x] = Some(Mino { color: 0 });
    }
    queue(&mut e, O);
    assert!(e.spawn_sequence());
    assert!(e.move_current_piece((-4, 0)));
    assert!(e.sonic_drop());
    assert_eq!(e.current_piece.unwrap().position.1, -1);
    assert!(!e.gameloop());
    assert!(!e.gameloop());
    assert_eq!(e.lock_delay_left, 1);
    assert!(e.move_current_piece((6, 0)));
    assert!(!e.gameloop());
    assert_eq!(e.lock_delay_left, 3);
}

#[test]
fn gravity_mode_locks_when_pressed_twice() {
    let mut e = game();
    e.rotation_system.lock_delay_mode = LockDelayMode::Gravity;
    e.gravity = 3600;
    queue(&mut e, T);
    assert!(e.spawn_sequence());
    assert!(e.sonic_drop());
    assert!(!e.gameloop());
    assert!(e.lock_delay_active);
    assert!(e.gameloop());
}

#[test]
fn counter_clockwise_from_spawn_turns_to_the_last_orientation() {
    let mut e = game();
    queue(&mut e, T);
    assert!(e.spawn_sequence());
    assert!(e.rotate_current_piece(-1));
    assert_eq!(e.current_piece.unwrap().rotation, 3);
    assert!(e.rotate_current_piece(1));
    assert_eq!(e.current_piece.unwrap().rotation, 0);
}

#[test]
fn arika_kicks_right_then_left() {
    let mut e = Engine::default();
    e.rotation_system = RotationSystem::ars();
    e.state = GameStates::Gameplay;
    e.gameloop_state = GameloopStates::Falling;
    e.board.board[1][0] = Some(Mino { color: 0 });
    e.current_piece = Some(Piece { id: T, color: 5, position: (0, 0), rotation: 1 });
    assert!(e.position_is_valid((0, 0), 1));
    assert!(!e.position_is_valid((0, 0), 2));
    assert!(e.rotate_current_piece(1));
    assert_eq!(e.current_piece.unwrap().position, (1, 0));
    assert_eq!(e.current_piece.unwrap().rotation, 2);
}

#[test]
fn hold_fails_when_the_held_piece_is_blocked() {
    let mut e = game();
    queue(&mut e, T);
    assert!(e.spawn_sequence());
    e.hold = Some(Piece::create(&e.rotation_system, O, 10, 20));
    e.board.board[20][4] = Some(Mino { color: 0 });
    let p = e.current_piece;
    assert!(!e.hold_current_piece());
    assert_eq!(e.current_piece, p);
    assert_eq!(e.hold.unwrap().id, O);
    assert!(e.can_hold);
}

#[test]
fn rotation_intents_wait_for_a_falling_piece() {
    let mut e = game();
    queue(&mut e, T);
    assert!(e.spawn_sequence());
    e.gameloop_state = GameloopStates::Spawn;
    e.receive_input(Intent::RotateCw);
    assert_eq!(e.current_piece.unwrap().rotation, 0);
    e.gameloop_state = GameloopStates::Falling;
    e.receive_input(Intent::RotateCw);
    assert_eq!(e.current_piece.unwrap().rotation, 1);
}
