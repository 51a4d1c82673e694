use parrot_pet::pet::{PetState, PetConfig, InputSnapshot, InputEvent, FrameTag};
use parrot_pet::rng::SimpleRng;
use parrot_pet::scheduler::{SchedulerState, REMINDER_INTERVAL_MS};

const FLOOR_MILLI: i64 = (1080 - 96) * 1000;
const XMAX_MILLI: i64 = (1920 - 128) * 1000;

fn config() -> PetConfig {
    PetConfig { screen_w: 1920, screen_h: 1080, sprite_w: 128, sprite_h: 96 }
}

fn texts(list: &[&str]) -> Vec<String> {
    list.iter().map(|t| t.to_string()).collect()
}

fn make_pet(seed: u64) -> PetState {
    PetState::new(config(), texts(&["hi"]), SimpleRng::from_seed(seed), 300, 300)
}

fn empty_sched() -> SchedulerState {
    SchedulerState::new(Vec::new(), 0)
}

fn quiet(cursor_x: i32, cursor_y: i32, down: bool) -> InputSnapshot {
    InputSnapshot { events: Vec::new(), cursor_x, cursor_y, left_button_down: down }
}

fn with_events(events: Vec<InputEvent>, cursor_x: i32, cursor_y: i32, down: bool)
    -> InputSnapshot {
    InputSnapshot { events, cursor_x, cursor_y, left_button_down: down }
}

#[test]
fn position_stays_inside_the_screen_box() {
    let mut pet = make_pet(2024);
    let mut sched = empty_sched();
    for _ in 0..5000 {
        pet.update(&mut sched, &quiet(0, 0, false));
        let (x, y) = pet.position_milli();
        assert!(0 <= x && x <= XMAX_MILLI);
        assert!(0 <= y && y <= FLOOR_MILLI);
    }
}

#[test]
fn the_floor_bounce_reverses_and_damps_the_fall() {
    let mut pet = make_pet(5);
    let mut sched = empty_sched();
    let mut bounced = false;
    for _ in 0..200 {
        let (_, y_before) = pet.position_milli();
        let (_, vy_before) = pet.velocity_milli();
        pet.update(&mut sched, &quiet(0, 0, false));
        let (_, y_after) = pet.position_milli();
        if y_before < FLOOR_MILLI && y_after == FLOOR_MILLI {
            let pre_collision = vy_before + 500;
            let (_, vy_after) = pet.velocity_milli();
            assert_eq!(vy_after, -((7 * pre_collision) / 10));
            assert!(vy_after.abs() < pre_collision.abs());
            assert!(pre_collision > 0 && vy_after <= 0);
            bounced = true;
            break;
        }
    }
    assert!(bounced);
}

#[test]
fn a_wall_bounce_reverses_and_damps_both_velocities() {
    // Start against the left wall; with this seed the sprite wanders left
    // and crosses the wall on its 489th tick.
    let mut pet = PetState::new(config(), texts(&["hi"]), SimpleRng::from_seed(2), 0, 300);
    let mut sched = empty_sched();
    for _ in 0..488 {
        pet.update(&mut sched, &quiet(0, 0, false));
    }
    let (x_before, _) = pet.position_milli();
    let (vx_before, _) = pet.velocity_milli();
    let tvx_before = pet.target_velocity_x_milli();
    assert_eq!((x_before, vx_before, tvx_before), (2198, -2475, -2550));
    pet.update(&mut sched, &quiet(0, 0, false));
    // The smoothed pre-collision velocity was -2482; both it and the target
    // velocity flipped sign and kept eight tenths of their magnitude.
    let vx_mid = vx_before + (tvx_before - vx_before) / 10;
    assert_eq!(vx_mid, -2482);
    let (x_after, _) = pet.position_milli();
    let (vx_after, _) = pet.velocity_milli();
    let tvx_after = pet.target_velocity_x_milli();
    assert_eq!(x_after, 0);
    assert_eq!(vx_after, (8 * -vx_mid) / 10);
    assert_eq!(tvx_after, (8 * -tvx_before) / 10);
    assert!(vx_after.abs() < vx_mid.abs() && vx_after * vx_mid <= 0);
    assert!(tvx_after.abs() < tvx_before.abs() && tvx_after * tvx_before <= 0);
}

#[test]
fn dragging_pins_velocity_and_tracks_the_cursor() {
    let mut pet = make_pet(11);
    let mut sched = empty_sched();
    // Grab the sprite at (350, 350); its anchor is (300, 300), so the grab
    // offset is (50, 50).
    pet.update(&mut sched,
        &with_events(vec![InputEvent::LeftPress { x: 350, y: 350 }], 350, 350, true));
    assert!(pet.is_dragging());
    assert_eq!(pet.position_milli(), (300_000, 300_000));
    assert_eq!(pet.velocity_milli(), (0, 0));
    let moves = [(600, 200), (700, 500), (10, 10), (5000, 5000), (800, 400)];
    let expected = [(550, 150), (650, 450), (0, 0), (1792, 984), (750, 350)];
    for (m, e) in moves.iter().zip(expected.iter()) {
        pet.update(&mut sched, &quiet(m.0, m.1, true));
        assert!(pet.is_dragging());
        assert_eq!(pet.velocity_milli(), (0, 0));
        assert_eq!(pet.target_velocity_x_milli(), 0);
        assert_eq!(pet.position_milli(), (e.0 * 1000, e.1 * 1000));
    }
}

#[test]
fn release_leaves_the_sprite_where_dragged_and_starts_flight() {
    let mut pet = make_pet(11);
    let mut sched = empty_sched();
    pet.update(&mut sched,
        &with_events(vec![InputEvent::LeftPress { x: 350, y: 350 }], 350, 350, true));
    for m in [(600, 200), (800, 400)] {
        pet.update(&mut sched, &quiet(m.0, m.1, true));
    }
    assert_eq!(pet.position_milli(), (750_000, 350_000));
    pet.update(&mut sched,
        &with_events(vec![InputEvent::LeftRelease], 800, 400, false));
    assert!(!pet.is_dragging());
    assert!(pet.is_flying());
    assert_eq!(pet.render_params().frame, FrameTag::Fly0);
    // Physics resumed on the release tick: gravity only, from rest.
    assert_eq!(pet.position_milli(), (750_000, 350_500));
    assert_eq!(pet.velocity_milli(), (0, 500));
}

#[test]
fn a_button_up_poll_ends_the_drag_like_a_release() {
    let mut pet = make_pet(3);
    let mut sched = empty_sched();
    pet.update(&mut sched,
        &with_events(vec![InputEvent::LeftPress { x: 310, y: 310 }], 310, 310, true));
    assert!(pet.is_dragging());
    // No release event arrives, but the polled button state went up.
    pet.update(&mut sched, &quiet(500, 500, false));
    assert!(!pet.is_dragging());
    assert!(pet.is_flying());
}

#[test]
fn flight_cycles_frames_and_ends_within_ninety_ticks() {
    let mut pet = make_pet(11);
    let mut sched = empty_sched();
    pet.update(&mut sched,
        &with_events(vec![InputEvent::LeftPress { x: 350, y: 350 }], 350, 350, true));
    pet.update(&mut sched,
        &with_events(vec![InputEvent::LeftRelease], 350, 350, false));
    // Tick 1 of the flight was the release tick itself.
    assert!(pet.is_flying());
    assert_eq!(pet.render_params().frame, FrameTag::Fly0);
    for tick in 2..=95u32 {
        pet.update(&mut sched, &quiet(0, 0, false));
        if tick < 90 {
            assert!(pet.is_flying());
            let expected = match ((tick - 1) / 8) % 4 {
                0 => FrameTag::Fly0,
                1 => FrameTag::Fly1,
                2 => FrameTag::Fly2,
                _ => FrameTag::Fly1,
            };
            if tick % 8 != 0 && tick % 8 != 1 {
                // Away from the exact frame-advance boundaries, the painted
                // frame follows the 0,1,2,1 cycle with period 8.
                assert_eq!(pet.render_params().frame, expected);
            }
        }
        if tick >= 90 {
            assert!(!pet.is_flying());
        }
    }
}

#[test]
fn right_click_with_no_reminder_shows_a_fallback_message() {
    let mut pet = make_pet(9);
    let mut sched = empty_sched();
    pet.update(&mut sched,
        &with_events(vec![InputEvent::RightPress { x: 350, y: 350 }], 350, 350, false));
    assert!(pet.bubble_visible());
    assert_eq!(pet.render_params().bubble_text, Some("hi".to_string()));
    assert_eq!(pet.velocity_milli(), (0, 0));
    // The bubble hides itself after 300 ticks of no further input.
    for _ in 0..298 {
        pet.update(&mut sched, &quiet(0, 0, false));
        assert!(pet.bubble_visible());
    }
    pet.update(&mut sched, &quiet(0, 0, false));
    assert!(!pet.bubble_visible());
    assert_eq!(pet.render_params().bubble_text, None);
}

#[test]
fn a_second_right_click_hides_the_bubble() {
    let mut pet = make_pet(9);
    let mut sched = empty_sched();
    let click = vec![InputEvent::RightPress { x: 350, y: 350 }];
    pet.update(&mut sched, &with_events(click.clone(), 350, 350, false));
    assert!(pet.bubble_visible());
    pet.update(&mut sched, &with_events(click, 350, 350, false));
    assert!(!pet.bubble_visible());
}

#[test]
fn the_random_fallback_pick_scales_the_fraction_by_the_list_length() {
    let list = ["alpha", "beta", "gamma", "delta"];
    let seed = 77;
    let mut pet = PetState::new(config(), texts(&list), SimpleRng::from_seed(seed), 300, 300);
    let mut sched = empty_sched();
    pet.update(&mut sched,
        &with_events(vec![InputEvent::RightPress { x: 350, y: 350 }], 350, 350, false));
    let mut twin = SimpleRng::from_seed(seed);
    let expected = (twin.next_fraction() * list.len() as u64 / 0x1000000) as usize;
    assert_eq!(pet.render_params().bubble_text, Some(list[expected].to_string()));
}

#[test]
fn right_click_shows_and_consumes_a_ready_reminder() {
    let mut pet = make_pet(13);
    let mut sched = SchedulerState::new(texts(&["drink water"]), 0);
    sched.tick(REMINDER_INTERVAL_MS);
    assert!(sched.has_message_ready());
    pet.update(&mut sched,
        &with_events(vec![InputEvent::RightPress { x: 350, y: 350 }], 350, 350, false));
    assert!(pet.bubble_visible());
    assert_eq!(pet.render_params().bubble_text, Some("drink water".to_string()));
    assert!(!sched.has_message_ready());
}

#[test]
fn a_ready_reminder_makes_a_grounded_sprite_jump() {
    // Start on the floor.
    let mut pet = PetState::new(config(), texts(&["hi"]), SimpleRng::from_seed(21), 300,
        100_000);
    assert_eq!(pet.position_milli().1, FLOOR_MILLI);
    let mut sched = SchedulerState::new(texts(&["up"]), 0);
    sched.tick(REMINDER_INTERVAL_MS);
    pet.update(&mut sched, &quiet(0, 0, false));
    // The jump set the vertical velocity to -12 px/tick; gravity then took
    // half a pixel back and the sprite left the floor.
    assert_eq!(pet.velocity_milli().1, -11_500);
    assert_eq!(pet.position_milli().1, FLOOR_MILLI - 11_500);
    // The cue does not consume the reminder.
    assert!(sched.has_message_ready());
}

#[test]
fn a_resting_sprite_needs_no_repaint() {
    let mut pet = PetState::new(config(), texts(&["hi"]), SimpleRng::from_seed(1), 300,
        100_000);
    let mut sched = empty_sched();
    for _ in 0..50 {
        let render = pet.update(&mut sched, &quiet(0, 0, false));
        assert!(!render);
    }
}

#[test]
fn a_press_outside_the_sprite_does_nothing() {
    let mut pet = make_pet(4);
    let mut sched = empty_sched();
    pet.update(&mut sched,
        &with_events(vec![InputEvent::LeftPress { x: 1000, y: 50 }], 1000, 50, true));
    assert!(!pet.is_dragging());
    pet.update(&mut sched,
        &with_events(vec![InputEvent::RightPress { x: 1000, y: 50 }], 1000, 50, false));
    assert!(!pet.bubble_visible());
}
