use ubsg::handling::Handling;

/// Presses right, counts the move made at the press, then ticks `ticks` times.
fn pulses(h: &mut Handling, delta: u32, ticks: u32) -> (u32, Vec<u32>) {
    h.movement_key_pressed(false, true);
    let mut count = 1;
    let mut at = Vec::new();
    for t in 1..=ticks {
        let d = h.movement_tick(delta);
        if d != 0 {
            assert_eq!(d, 1);
            count += 1;
            at.push(t * delta);
        }
    }
    (count, at)
}

#[test]
fn das_then_arr_over_300_ms() {
    let mut h = Handling::create(200_000, 33_000, 20);
    let (count, at) = pulses(&mut h, 1_000, 300);
    assert_eq!(at, vec![200_000, 233_000, 266_000, 299_000]);
    assert_eq!(count, 5);
}

#[test]
fn das_then_arr_at_sixty_hertz_carries_remainders() {
    let mut h = Handling::create(200_000, 33_000, 20);
    let (count, at) = pulses(&mut h, 16_667, 18);
    // 12 ticks reach 200 ms with 4 µs over; the next pulses come every 33 ms of ticked time
    assert_eq!(at, vec![12 * 16_667, 14 * 16_667, 16 * 16_667, 18 * 16_667]);
    assert_eq!(count, 5);
}

#[test]
fn no_pulse_without_a_key_held() {
    let mut h = Handling::create(200_000, 33_000, 20);
    for _ in 0..1000 {
        assert_eq!(h.movement_tick(1_000), 0);
    }
    assert_eq!(h.das_left, 200_000);
}

#[test]
fn last_pressed_side_wins_and_release_falls_back() {
    let mut h = Handling::create(100, 10, 20);
    h.movement_key_pressed(true, false);
    assert_eq!(h.direction, -1);
    h.movement_key_pressed(false, true);
    assert_eq!(h.direction, 1);
    h.movement_key_released(false, true);
    assert_eq!(h.direction, -1);
    assert!(h.active_left && !h.active_right);
    h.movement_key_released(true, false);
    assert_eq!(h.direction, 0);
    assert_eq!(h.das_left, 100);
    assert_eq!(h.arr_left, 10);
}

#[test]
fn press_restarts_das() {
    let mut h = Handling::create(100, 10, 20);
    h.movement_key_pressed(true, false);
    assert_eq!(h.movement_tick(60), 0);
    assert_eq!(h.das_left, 40);
    h.movement_key_pressed(true, false);
    assert_eq!(h.das_left, 100);
}

#[test]
fn zero_arr_repeats_every_tick() {
    let mut h = Handling::create(10, 0, 20);
    h.movement_key_pressed(true, false);
    assert_eq!(h.movement_tick(10), -1);
    assert_eq!(h.movement_tick(1), -1);
    assert_eq!(h.movement_tick(1), -1);
}
