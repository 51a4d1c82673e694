//! The sprite state machine: one `update` per tick advances physics
//! (gravity, exponential velocity smoothing, floor and wall bounces),
//! randomized idle/move behaviour, drag and drop, the post-drag flight
//! animation, the idle blink animation, the speech bubble, and decides
//! whether the frame must be redrawn.
//!
//! Geometry is carried in milli-pixels (thousandths of a pixel), so the
//! fractional physics constants become exact integer arithmetic: gravity
//! `0.5` px/tick is `500`, the floor bounce keeps `7/10` of the speed, a
//! wall bounce keeps `8/10`, and the horizontal velocity moves a tenth of
//! the way to its target each tick.

use vstd::prelude::*;

use crate::rng::{SimpleRng, lcg_next, FRACTION_ONE};
use crate::scheduler::{SchedulerState, SchedulerModel, sched_wf, sched_take, option_text};

verus! {

/// Gravity per tick, in milli-pixels.
pub const GRAVITY_MILLI: i64 = 500;
/// Upward velocity of the attention jump cued by a ready reminder.
pub const JUMP_VELOCITY_MILLI: i64 = -12000;
/// The sprite faces right while `velocity.x` exceeds this (0.1 px/tick).
pub const FACING_THRESHOLD_MILLI: i64 = 100;
/// Ticks a speech bubble stays up before it hides itself.
pub const BUBBLE_DURATION: u32 = 300;
/// Ticks a flight lasts before it expires back to grounded.
pub const FLIGHT_DURATION: u32 = 90;
/// Ticks between flight frame advances.
pub const FLIGHT_FRAME_TICKS: u32 = 8;
/// Ticks between blink frame flips.
pub const BLINK_FRAME_TICKS: u32 = 30;
/// Ticks between the random start/continue decisions of the blink animation.
pub const BLINK_CHECK_TICKS: u32 = 60;
/// Shortest idle stretch, in ticks; a random 0..=599 is added.
pub const IDLE_BASE_TICKS: u32 = 180;
/// Width of the random span added to `IDLE_BASE_TICKS`.
pub const IDLE_SPAN_TICKS: u32 = 600;
/// Shortest moving stretch, in ticks; a random 0..=89 is added.
pub const MOVE_BASE_TICKS: u32 = 30;
/// Width of the random span added to `MOVE_BASE_TICKS`.
pub const MOVE_SPAN_TICKS: u32 = 90;
/// Slowest walking speed, in milli-pixels per tick (0.5 px/tick).
pub const SPEED_BASE_MILLI: i64 = 500;
/// Width of the random span added to `SPEED_BASE_MILLI` (up to 2.5 px/tick).
pub const SPEED_SPAN_MILLI: i64 = 2500;

/// Which way the sprite faces; picks the mirrored frame set.
#[derive(Clone, Copy, PartialEq, Eq, Structural, Debug)]
pub enum Facing {
    Left,
    Right,
}

/// The locomotion state, toggled by randomized timers.
#[derive(Clone, Copy, PartialEq, Eq, Structural, Debug)]
pub enum Behavior {
    Idle,
    Moving,
}

/// Which sprite frame the presentation layer should paint.
#[derive(Clone, Copy, PartialEq, Eq, Structural, Debug)]
pub enum FrameTag {
    Normal,
    Low,
    Fly0,
    Fly1,
    Fly2,
}

/// A discrete input event observed since the previous tick, with the cursor
/// position at the moment it fired where the handler needs one.
#[derive(Clone, Copy, PartialEq, Eq, Structural, Debug)]
pub enum InputEvent {
    LeftPress { x: i32, y: i32 },
    LeftRelease,
    RightPress { x: i32, y: i32 },
}

/// Everything the state machine reads from the outside on one tick: the
/// events since the last tick, the polled cursor position, and the polled
/// left-button state.
pub struct InputSnapshot {
    pub events: Vec<InputEvent>,
    pub cursor_x: i32,
    pub cursor_y: i32,
    pub left_button_down: bool,
}

/// The screen and sprite geometry, fixed for the session.
#[derive(Clone, Copy, PartialEq, Eq, Structural, Debug)]
pub struct PetConfig {
    pub screen_w: u32,
    pub screen_h: u32,
    pub sprite_w: u32,
    pub sprite_h: u32,
}

/// The post-drag flight animation override.
pub enum Flight {
    Grounded,
    Flying { frame: u32, elapsed: u32, anim_timer: u32 },
}

/// The drag interaction: while dragging, the anchor tracks the cursor minus
/// the offset grabbed at press time.
pub enum Drag {
    Released,
    Dragging { offset_x: i64, offset_y: i64 },
}

/// The speech bubble overlay.
pub enum Bubble {
    Hidden,
    Showing { text: String, elapsed: u32 },
}

/// What the presentation layer needs for one paint: the rounded anchor,
/// the frame and facing to select a bitmap, and the bubble overlay.
pub struct RenderParams {
    pub x: i64,
    pub y: i64,
    pub frame: FrameTag,
    pub facing: Facing,
    pub bubble_text: Option<String>,
}

/// Ghost counterpart of `Flight`.
pub ghost enum FlightModel {
    Grounded,
    Flying { frame: nat, elapsed: nat, anim_timer: nat },
}

/// Ghost counterpart of `Drag`.
pub ghost enum DragModel {
    Released,
    Dragging { offset_x: int, offset_y: int },
}

/// Ghost counterpart of `Bubble`.
pub ghost enum BubbleModel {
    Hidden,
    Showing { text: Seq<char>, elapsed: nat },
}

/// Ghost counterpart of `InputSnapshot`.
pub ghost struct InputModel {
    pub events: Seq<InputEvent>,
    pub cursor_x: int,
    pub cursor_y: int,
    pub left_button_down: bool,
}

impl View for InputSnapshot {
    type V = InputModel;

    closed spec fn view(&self) -> InputModel {
        InputModel {
            events: self.events@,
            cursor_x: self.cursor_x as int,
            cursor_y: self.cursor_y as int,
            left_button_down: self.left_button_down,
        }
    }
}

/// The mathematical value of a `PetState`: geometry in milli-pixels as
/// unbounded integers, timers as naturals, texts as character sequences.
pub ghost struct PetModel {
    pub screen_w: nat,
    pub screen_h: nat,
    pub sprite_w: nat,
    pub sprite_h: nat,
    pub messages: Seq<Seq<char>>,
    pub rng: u64,
    pub pos_x: int,
    pub pos_y: int,
    pub vel_x: int,
    pub vel_y: int,
    pub target_vel_x: int,
    pub facing: Facing,
    pub behavior: Behavior,
    pub idle_timer: nat,
    pub movement_timer: nat,
    pub use_low_frame: bool,
    pub animation_timer: nat,
    pub is_animating: bool,
    pub animation_check_timer: nat,
    pub flight: FlightModel,
    pub drag: DragModel,
    pub bubble: BubbleModel,
    pub last_low_frame: bool,
    pub last_bubble_visible: bool,
    pub last_drawn_x: int,
    pub last_drawn_y: int,
}

/// Ghost value of a `Flight`.
pub open spec fn flight_view(f: Flight) -> FlightModel {
    match f {
        Flight::Grounded => FlightModel::Grounded,
        Flight::Flying { frame, elapsed, anim_timer } => FlightModel::Flying {
            frame: frame as nat,
            elapsed: elapsed as nat,
            anim_timer: anim_timer as nat,
        },
    }
}

/// Ghost value of a `Drag`.
pub open spec fn drag_view(d: Drag) -> DragModel {
    match d {
        Drag::Released => DragModel::Released,
        Drag::Dragging { offset_x, offset_y } => DragModel::Dragging {
            offset_x: offset_x as int,
            offset_y: offset_y as int,
        },
    }
}

/// Ghost value of a `Bubble`.
pub open spec fn bubble_view(b: Bubble) -> BubbleModel {
    match b {
        Bubble::Hidden => BubbleModel::Hidden,
        Bubble::Showing { text, elapsed } => BubbleModel::Showing {
            text: text@,
            elapsed: elapsed as nat,
        },
    }
}

/// The whole per-tick state of the pet, advanced only by `update`.
pub struct PetState {
    config: PetConfig,
    messages: Vec<String>,
    rng: SimpleRng,
    pos_x: i64,
    pos_y: i64,
    vel_x: i64,
    vel_y: i64,
    target_vel_x: i64,
    facing: Facing,
    behavior: Behavior,
    idle_timer: u32,
    movement_timer: u32,
    use_low_frame: bool,
    animation_timer: u32,
    is_animating: bool,
    animation_check_timer: u32,
    flight: Flight,
    drag: Drag,
    bubble: Bubble,
    last_low_frame: bool,
    last_bubble_visible: bool,
    last_drawn_x: i64,
    last_drawn_y: i64,
}

impl View for PetState {
    type V = PetModel;

    closed spec fn view(&self) -> PetModel {
        PetModel {
            screen_w: self.config.screen_w as nat,
            screen_h: self.config.screen_h as nat,
            sprite_w: self.config.sprite_w as nat,
            sprite_h: self.config.sprite_h as nat,
            messages: self.messages@.map_values(|s: String| s@),
            rng: self.rng@,
            pos_x: self.pos_x as int,
            pos_y: self.pos_y as int,
            vel_x: self.vel_x as int,
            vel_y: self.vel_y as int,
            target_vel_x: self.target_vel_x as int,
            facing: self.facing,
            behavior: self.behavior,
            idle_timer: self.idle_timer as nat,
            movement_timer: self.movement_timer as nat,
            use_low_frame: self.use_low_frame,
            animation_timer: self.animation_timer as nat,
            is_animating: self.is_animating,
            animation_check_timer: self.animation_check_timer as nat,
            flight: flight_view(self.flight),
            drag: drag_view(self.drag),
            bubble: bubble_view(self.bubble),
            last_low_frame: self.last_low_frame,
            last_bubble_visible: self.last_bubble_visible,
            last_drawn_x: self.last_drawn_x as int,
            last_drawn_y: self.last_drawn_y as int,
        }
    }
}

// ---------------------------------------------------------------------------
// Geometry helpers
// ---------------------------------------------------------------------------

/// The lowest anchor position: the floor, in milli-pixels.
pub open spec fn floor_y_milli(m: PetModel) -> int {
    (m.screen_h - m.sprite_h) * 1000
}

/// The rightmost anchor position, in milli-pixels.
pub open spec fn max_x_milli(m: PetModel) -> int {
    (m.screen_w - m.sprite_w) * 1000
}

/// A milli-pixel coordinate rounded to the nearest whole pixel
/// (half rounds down the screen); exact for the non-negative coordinates
/// the invariant guarantees.
pub open spec fn round_to_px(p: int) -> int {
    (p + 500) / 1000
}

/// Clamp `v` into `[lo, hi]` (callers ensure `lo <= hi`).
pub open spec fn clamp(v: int, lo: int, hi: int) -> int {
    if v < lo {
        lo
    } else if v > hi {
        hi
    } else {
        v
    }
}

/// Whether the cursor lies in the sprite's bounding box (edges included),
/// anchored at the current rounded position.
pub open spec fn cursor_in_box(m: PetModel, cx: int, cy: int) -> bool {
    let px = round_to_px(m.pos_x);
    let py = round_to_px(m.pos_y);
    &&& px <= cx <= px + m.sprite_w
    &&& py <= cy <= py + m.sprite_h
}

// ---------------------------------------------------------------------------
// Fixed-point arithmetic on velocities
// ---------------------------------------------------------------------------

/// One smoothing step: the velocity moves a tenth of the distance to its
/// target (truncated toward zero, as the executable division does).
pub open spec fn smooth_step(vel: int, target: int) -> int {
    let d = target - vel;
    if d >= 0 {
        vel + d / 10
    } else {
        vel - (-d) / 10
    }
}

/// A floor bounce: reflect the velocity, keeping seven tenths of its
/// magnitude (truncated toward zero).
pub open spec fn damp_bounce(v: int) -> int {
    if v >= 0 {
        -((7 * v) / 10)
    } else {
        (7 * (-v)) / 10
    }
}

/// A wall bounce: reflect the velocity, keeping eight tenths of its
/// magnitude (truncated toward zero).
pub open spec fn damp_wall(v: int) -> int {
    if v >= 0 {
        -((8 * v) / 10)
    } else {
        (8 * (-v)) / 10
    }
}

/// `base + fraction * span / FRACTION_ONE`: the randomized durations and
/// speeds, scaled from a 24-bit fraction numerator.
pub open spec fn scaled_from_fraction(frac: u64, base: int, span: int) -> int {
    base + (frac * span) / (FRACTION_ONE as int)
}

/// A scaled random value stays in `[base, base + span)`.
proof fn lemma_scaled_bounds(frac: u64, base: int, span: int)
    requires
        frac < FRACTION_ONE,
        0 <= base,
        0 < span,
    ensures
        base <= scaled_from_fraction(frac, base, span) < base + span,
{
    let p = frac as int * span;
    vstd::arithmetic::mul::lemma_mul_nonnegative(frac as int, span);
    vstd::arithmetic::mul::lemma_mul_strict_inequality(frac as int, FRACTION_ONE as int, span);
    vstd::arithmetic::div_mod::lemma_multiply_divide_lt(p, FRACTION_ONE as int, span);
    vstd::arithmetic::div_mod::lemma_div_pos_is_pos(p, FRACTION_ONE as int);
}

/// A tenth of a non-negative distance is non-negative and no more than the
/// distance.
proof fn lemma_tenth_bounds(d: int)
    requires
        0 <= d,
    ensures
        0 <= d / 10 <= d,
{
    vstd::arithmetic::div_mod::lemma_fundamental_div_mod(d, 10);
    vstd::arithmetic::div_mod::lemma_mod_bound(d, 10);
}

/// The smoothing step lands between the velocity and its target.
proof fn lemma_smooth_between(vel: int, target: int)
    ensures
        vel <= target ==> vel <= smooth_step(vel, target) <= target,
        target <= vel ==> target <= smooth_step(vel, target) <= vel,
{
    let d = target - vel;
    if d >= 0 {
        lemma_tenth_bounds(d);
    } else {
        lemma_tenth_bounds(-d);
    }
}

/// A floor bounce reflects the velocity and keeps at most seven tenths of
/// its magnitude; a non-zero velocity strictly shrinks.
proof fn lemma_damp_bounce_props(v: int)
    ensures
        v >= 0 ==> 0 <= -damp_bounce(v) && 10 * (-damp_bounce(v)) <= 7 * v,
        v < 0 ==> 0 <= damp_bounce(v) && 10 * damp_bounce(v) <= 7 * (-v),
        v > 0 ==> -damp_bounce(v) < v,
        v < 0 ==> damp_bounce(v) < -v,
{
    if v >= 0 {
        vstd::arithmetic::div_mod::lemma_fundamental_div_mod(7 * v, 10);
        vstd::arithmetic::div_mod::lemma_mod_bound(7 * v, 10);
    } else {
        vstd::arithmetic::div_mod::lemma_fundamental_div_mod(7 * (-v), 10);
        vstd::arithmetic::div_mod::lemma_mod_bound(7 * (-v), 10);
    }
}

/// A wall bounce reflects the velocity and keeps at most eight tenths of
/// its magnitude; a non-zero velocity strictly shrinks.
proof fn lemma_damp_wall_props(v: int)
    ensures
        v >= 0 ==> 0 <= -damp_wall(v) && 10 * (-damp_wall(v)) <= 8 * v,
        v < 0 ==> 0 <= damp_wall(v) && 10 * damp_wall(v) <= 8 * (-v),
        v > 0 ==> -damp_wall(v) < v,
        v < 0 ==> damp_wall(v) < -v,
{
    if v >= 0 {
        vstd::arithmetic::div_mod::lemma_fundamental_div_mod(8 * v, 10);
        vstd::arithmetic::div_mod::lemma_mod_bound(8 * v, 10);
    } else {
        vstd::arithmetic::div_mod::lemma_fundamental_div_mod(8 * (-v), 10);
        vstd::arithmetic::div_mod::lemma_mod_bound(8 * (-v), 10);
    }
}

// ---------------------------------------------------------------------------
// The well-formedness invariant
// ---------------------------------------------------------------------------

/// Geometry and message list constraints fixed at construction.
pub open spec fn config_ok(m: PetModel) -> bool {
    &&& m.sprite_w <= m.screen_w
    &&& m.sprite_h <= m.screen_h
    &&& m.messages.len() > 0
}

/// The state invariant: the anchor stays inside the screen box, velocities
/// stay bounded, the timers stay within their cycles, and dragging pins the
/// velocities to zero. `new` establishes it and `update` preserves it.
///
/// The two behaviour timers advance only together and are reset only
/// together, so they stay equal; the bound on them comes from the longest
/// stretch the randomized durations allow before a toggle is forced.
pub open spec fn pet_wf(m: PetModel) -> bool {
    &&& config_ok(m)
    &&& 0 <= m.pos_x <= max_x_milli(m)
    &&& 0 <= m.pos_y <= floor_y_milli(m)
    &&& -3000 <= m.vel_x <= 3000
    &&& -3000 <= m.target_vel_x <= 3000
    &&& -(floor_y_milli(m) + 13000) <= m.vel_y <= floor_y_milli(m) + 13000
    &&& m.idle_timer == m.movement_timer
    &&& m.idle_timer <= 779
    &&& m.behavior is Moving ==> m.idle_timer <= 119
    &&& m.animation_timer < BLINK_FRAME_TICKS
    &&& m.animation_check_timer < BLINK_CHECK_TICKS
    &&& m.flight matches FlightModel::Flying { frame, elapsed, anim_timer }
        ==> frame < 4 && elapsed < FLIGHT_DURATION && anim_timer < FLIGHT_FRAME_TICKS
    &&& m.bubble matches BubbleModel::Showing { elapsed, .. } ==> elapsed < BUBBLE_DURATION
    &&& m.drag matches DragModel::Dragging { offset_x, offset_y }
        ==> -0x8_0000_0000 <= offset_x <= 0x8_0000_0000
            && -0x8_0000_0000 <= offset_y <= 0x8_0000_0000
    &&& m.drag is Dragging ==> m.vel_x == 0 && m.vel_y == 0 && m.target_vel_x == 0
}

// ---------------------------------------------------------------------------
// The tick, phase by phase, as spec functions over the model
// ---------------------------------------------------------------------------

/// The sprite is at rest within a pixel of the floor.
pub open spec fn near_floor(m: PetModel) -> bool {
    m.pos_y >= floor_y_milli(m) - 1000
}

/// Attention cue: a ready reminder makes a grounded, undisturbed sprite
/// jump. The reminder itself is not consumed.
pub open spec fn step_jump_cue(m: PetModel, reminder_ready: bool) -> PetModel {
    if reminder_ready && m.drag is Released && m.bubble is Hidden && near_floor(m) {
        PetModel { vel_y: JUMP_VELOCITY_MILLI as int, ..m }
    } else {
        m
    }
}

/// A left press inside the sprite box starts a drag: remember the grab
/// offset, stop all motion, force idle.
pub open spec fn step_left_press(m: PetModel, x: int, y: int) -> PetModel {
    if cursor_in_box(m, x, y) {
        PetModel {
            drag: DragModel::Dragging {
                offset_x: x - round_to_px(m.pos_x),
                offset_y: y - round_to_px(m.pos_y),
            },
            vel_x: 0,
            vel_y: 0,
            target_vel_x: 0,
            behavior: Behavior::Idle,
            ..m
        }
    } else {
        m
    }
}

/// Leaving a drag: reset the behaviour timers and start the flight
/// animation at its first frame.
pub open spec fn begin_flight(m: PetModel) -> PetModel {
    PetModel {
        drag: DragModel::Released,
        movement_timer: 0,
        idle_timer: 0,
        flight: FlightModel::Flying { frame: 0, elapsed: 0, anim_timer: 0 },
        ..m
    }
}

/// A left release ends a drag (and only a drag) by entering flight.
pub open spec fn step_left_release(m: PetModel) -> PetModel {
    if m.drag is Dragging {
        begin_flight(m)
    } else {
        m
    }
}

/// The message index a fraction numerator picks, uniform over the list.
pub open spec fn random_message_index(frac: u64, len: nat) -> int {
    (frac * len) / (FRACTION_ONE as int)
}

/// A fraction numerator below `FRACTION_ONE` always picks an index inside
/// the list.
proof fn lemma_message_index_bound(frac: u64, len: nat)
    requires
        frac < FRACTION_ONE,
        len > 0,
    ensures
        0 <= random_message_index(frac, len) < len,
        frac * len <= 0xFFFFFF * len,
{
    vstd::arithmetic::mul::lemma_mul_inequality(frac as int, 0xFFFFFF, len as int);
    assert(frac * len <= 0xFFFFFF * len);
    vstd::arithmetic::mul::lemma_mul_strict_inequality(frac as int, FRACTION_ONE as int,
        len as int);
    vstd::arithmetic::div_mod::lemma_multiply_divide_lt(frac as int * len as int,
        FRACTION_ONE as int, len as int);
    vstd::arithmetic::div_mod::lemma_div_pos_is_pos(frac as int * len as int,
        FRACTION_ONE as int);
    vstd::arithmetic::mul::lemma_mul_nonnegative(frac as int, len as int);
}

/// A right press inside the sprite box: show a ready reminder (consuming
/// it), else toggle the bubble, picking a random fallback message when it
/// comes up. Showing a bubble stops all motion, forces idle and cancels
/// flight.
pub open spec fn step_right_press(m: PetModel, sched: SchedulerModel, x: int, y: int)
    -> (PetModel, SchedulerModel) {
    if !cursor_in_box(m, x, y) {
        (m, sched)
    } else if sched.pending_message is Some {
        let (msg, sched1) = sched_take(sched);
        (PetModel {
            bubble: BubbleModel::Showing { text: msg->0, elapsed: 0 },
            vel_x: 0,
            vel_y: 0,
            target_vel_x: 0,
            behavior: Behavior::Idle,
            flight: FlightModel::Grounded,
            ..m
        }, sched1)
    } else if m.bubble is Showing {
        (PetModel { bubble: BubbleModel::Hidden, ..m }, sched)
    } else {
        let r = lcg_next(m.rng);
        let idx = random_message_index(r % FRACTION_ONE, m.messages.len());
        (PetModel {
            bubble: BubbleModel::Showing { text: m.messages[idx], elapsed: 0 },
            rng: r,
            vel_x: 0,
            vel_y: 0,
            target_vel_x: 0,
            behavior: Behavior::Idle,
            flight: FlightModel::Grounded,
            ..m
        }, sched)
    }
}

/// One input event, dispatched to its handler.
pub open spec fn step_event(m: PetModel, sched: SchedulerModel, ev: InputEvent)
    -> (PetModel, SchedulerModel) {
    match ev {
        InputEvent::LeftPress { x, y } => (step_left_press(m, x as int, y as int), sched),
        InputEvent::LeftRelease => (step_left_release(m), sched),
        InputEvent::RightPress { x, y } => step_right_press(m, sched, x as int, y as int),
    }
}

/// All of a tick's events, applied in arrival order.
pub open spec fn step_events(m: PetModel, sched: SchedulerModel, evs: Seq<InputEvent>)
    -> (PetModel, SchedulerModel)
    decreases evs.len(),
{
    if evs.len() == 0 {
        (m, sched)
    } else {
        let (m1, s1) = step_event(m, sched, evs[0]);
        step_events(m1, s1, evs.drop_first())
    }
}

/// While dragging: the anchor snaps to the cursor minus the grab offset,
/// clamped to the screen box in whole pixels; if the polled button state
/// says the left button is no longer down, the drag ends as a release does.
pub open spec fn step_drag_poll(m: PetModel, cursor_x: int, cursor_y: int, left_down: bool)
    -> PetModel {
    match m.drag {
        DragModel::Dragging { offset_x, offset_y } => {
            let px = clamp(cursor_x - offset_x, 0, m.screen_w - m.sprite_w);
            let py = clamp(cursor_y - offset_y, 0, m.screen_h - m.sprite_h);
            let m1 = PetModel { pos_x: px * 1000, pos_y: py * 1000, ..m };
            if !left_down {
                begin_flight(m1)
            } else {
                m1
            }
        },
        DragModel::Released => m,
    }
}

/// The bubble counts up and hides itself after `BUBBLE_DURATION` ticks.
pub open spec fn step_bubble_timer(m: PetModel) -> PetModel {
    match m.bubble {
        BubbleModel::Showing { text, elapsed } => {
            if elapsed + 1 >= BUBBLE_DURATION {
                PetModel { bubble: BubbleModel::Hidden, ..m }
            } else {
                PetModel { bubble: BubbleModel::Showing { text, elapsed: elapsed + 1 }, ..m }
            }
        },
        BubbleModel::Hidden => m,
    }
}

/// The randomized idle/move behaviour: both timers advance together; after
/// a random stretch the behaviour toggles, a fresh random stretch being
/// drawn each tick. Entering `Moving` draws a speed and a direction.
pub open spec fn step_behavior(m: PetModel) -> PetModel {
    let m1 = PetModel { movement_timer: m.movement_timer + 1, idle_timer: m.idle_timer + 1, ..m };
    if m1.behavior is Idle {
        let r1 = lcg_next(m1.rng);
        let dur = scaled_from_fraction(r1 % FRACTION_ONE, IDLE_BASE_TICKS as int,
            IDLE_SPAN_TICKS as int);
        if m1.idle_timer > dur {
            let r2 = lcg_next(r1);
            let speed = scaled_from_fraction(r2 % FRACTION_ONE, SPEED_BASE_MILLI as int,
                SPEED_SPAN_MILLI as int);
            let r3 = lcg_next(r2);
            let to_right = r3 % FRACTION_ONE >= 0x800000;
            PetModel {
                behavior: Behavior::Moving,
                idle_timer: 0,
                movement_timer: 0,
                target_vel_x: if to_right { speed } else { -speed },
                rng: r3,
                ..m1
            }
        } else {
            PetModel { rng: r1, ..m1 }
        }
    } else {
        let r1 = lcg_next(m1.rng);
        let dur = scaled_from_fraction(r1 % FRACTION_ONE, MOVE_BASE_TICKS as int,
            MOVE_SPAN_TICKS as int);
        if m1.movement_timer > dur {
            PetModel {
                behavior: Behavior::Idle,
                target_vel_x: 0,
                idle_timer: 0,
                movement_timer: 0,
                rng: r1,
                ..m1
            }
        } else {
            PetModel { rng: r1, ..m1 }
        }
    }
}

/// The motion step: smooth the horizontal velocity toward its target, add
/// gravity, move, then resolve collisions — a damped bounce off the floor,
/// a clamp at the top of the screen, and damped bounces off both walls that
/// also reflect the target velocity.
pub open spec fn step_motion(m: PetModel) -> PetModel {
    let vx = smooth_step(m.vel_x, m.target_vel_x);
    let vy = m.vel_y + GRAVITY_MILLI;
    let x = m.pos_x + vx;
    let y = m.pos_y + vy;
    let floor = floor_y_milli(m);
    let hit_floor = y >= floor;
    let y1 = if hit_floor { floor } else { y };
    let vy1 = if hit_floor { damp_bounce(vy) } else { vy };
    let y2 = if y1 < 0 { 0 } else { y1 };
    let xmax = max_x_milli(m);
    let hit_wall = x <= 0 || x >= xmax;
    let x1 = clamp(x, 0, xmax);
    let vx1 = if hit_wall { damp_wall(vx) } else { vx };
    let tv1 = if hit_wall { damp_wall(m.target_vel_x) } else { m.target_vel_x };
    PetModel { pos_x: x1, pos_y: y2, vel_x: vx1, vel_y: vy1, target_vel_x: tv1, ..m }
}

/// Physics and behaviour run only while the sprite is neither dragged nor
/// showing a bubble.
pub open spec fn step_physics(m: PetModel) -> PetModel {
    if m.drag is Released && m.bubble is Hidden {
        step_motion(step_behavior(m))
    } else {
        m
    }
}

/// The flight animation: the frame advances every `FLIGHT_FRAME_TICKS`
/// ticks through 0,1,2,3 (painted 0,1,2,1) and the flight expires after
/// `FLIGHT_DURATION` ticks.
pub open spec fn step_flight(m: PetModel) -> PetModel {
    match m.flight {
        FlightModel::Flying { frame, elapsed, anim_timer } => {
            if elapsed + 1 >= FLIGHT_DURATION {
                PetModel { flight: FlightModel::Grounded, ..m }
            } else if anim_timer + 1 >= FLIGHT_FRAME_TICKS {
                PetModel {
                    flight: FlightModel::Flying {
                        frame: ((frame + 1) % 4) as nat,
                        elapsed: elapsed + 1,
                        anim_timer: 0,
                    },
                    ..m
                }
            } else {
                PetModel {
                    flight: FlightModel::Flying {
                        frame,
                        elapsed: elapsed + 1,
                        anim_timer: anim_timer + 1,
                    },
                    ..m
                }
            }
        },
        FlightModel::Grounded => m,
    }
}

/// The idle blink animation (skipped while flying): every
/// `BLINK_CHECK_TICKS` ticks a random draw starts (one chance in ten) or
/// continues (seven in ten) the animation; while animating the low frame
/// toggles every `BLINK_FRAME_TICKS` ticks. Moving shows the normal frame
/// and resets the animation.
pub open spec fn step_blink(m: PetModel) -> PetModel {
    if m.flight is Flying {
        m
    } else if m.behavior is Idle {
        let decide = m.animation_check_timer + 1 >= BLINK_CHECK_TICKS;
        let r = lcg_next(m.rng);
        let frac = r % FRACTION_ONE;
        let animating = if decide {
            if !m.is_animating {
                10 * frac < FRACTION_ONE - 1
            } else {
                10 * frac < 7 * (FRACTION_ONE - 1)
            }
        } else {
            m.is_animating
        };
        let check = if decide { 0nat } else { m.animation_check_timer + 1 };
        let rng1 = if decide { r } else { m.rng };
        if animating {
            if m.animation_timer + 1 >= BLINK_FRAME_TICKS {
                PetModel {
                    animation_check_timer: check,
                    is_animating: animating,
                    rng: rng1,
                    animation_timer: 0,
                    use_low_frame: !m.use_low_frame,
                    ..m
                }
            } else {
                PetModel {
                    animation_check_timer: check,
                    is_animating: animating,
                    rng: rng1,
                    animation_timer: m.animation_timer + 1,
                    ..m
                }
            }
        } else {
            PetModel {
                animation_check_timer: check,
                is_animating: false,
                rng: rng1,
                animation_timer: 0,
                use_low_frame: false,
                ..m
            }
        }
    } else {
        PetModel {
            use_low_frame: false,
            animation_timer: 0,
            is_animating: false,
            animation_check_timer: 0,
            ..m
        }
    }
}

/// Facing follows the horizontal velocity; the tick asks for a repaint when
/// a discrete visual changed (facing, blink frame, an active flight, bubble
/// visibility) or the rounded anchor moved, and then records what was
/// drawn.
pub open spec fn step_facing(m: PetModel) -> (PetModel, bool) {
    let new_facing = if m.vel_x > FACING_THRESHOLD_MILLI {
        Facing::Right
    } else {
        Facing::Left
    };
    let visual_change = new_facing != m.facing
        || m.use_low_frame != m.last_low_frame
        || m.flight is Flying
        || (m.bubble is Showing) != m.last_bubble_visible;
    let px = round_to_px(m.pos_x);
    let py = round_to_px(m.pos_y);
    let moved = px != m.last_drawn_x || py != m.last_drawn_y;
    let render = visual_change || moved;
    let m1 = PetModel {
        facing: new_facing,
        last_low_frame: m.use_low_frame,
        last_bubble_visible: m.bubble is Showing,
        last_drawn_x: if render { px } else { m.last_drawn_x },
        last_drawn_y: if render { py } else { m.last_drawn_y },
        ..m
    };
    (m1, render)
}

/// One whole tick: the reminder jump cue, the input events, the drag poll,
/// the bubble timer, physics and behaviour, the flight and blink
/// animations, and the facing/repaint decision, in that order.
pub open spec fn step_update(m: PetModel, sched: SchedulerModel, input: InputModel)
    -> (PetModel, SchedulerModel, bool) {
    let m1 = step_jump_cue(m, sched.pending_message is Some);
    let (m2, s2) = step_events(m1, sched, input.events);
    let m3 = step_drag_poll(m2, input.cursor_x, input.cursor_y, input.left_button_down);
    let m4 = step_bubble_timer(m3);
    let m5 = step_physics(m4);
    let m6 = step_flight(m5);
    let m7 = step_blink(m6);
    let (m8, render) = step_facing(m7);
    (m8, s2, render)
}

/// The state `new` hands back: the anchor clamped into the screen box, no
/// motion, idle, grounded, released, bubble hidden, all timers at zero.
pub open spec fn initial_pet(config: PetConfig, messages: Seq<Seq<char>>, seed: u64,
    start_x: int, start_y: int) -> PetModel {
    let px = clamp(start_x, 0, config.screen_w - config.sprite_w);
    let py = clamp(start_y, 0, config.screen_h - config.sprite_h);
    PetModel {
        screen_w: config.screen_w as nat,
        screen_h: config.screen_h as nat,
        sprite_w: config.sprite_w as nat,
        sprite_h: config.sprite_h as nat,
        messages: messages,
        rng: seed,
        pos_x: px * 1000,
        pos_y: py * 1000,
        vel_x: 0,
        vel_y: 0,
        target_vel_x: 0,
        facing: Facing::Left,
        behavior: Behavior::Idle,
        idle_timer: 0,
        movement_timer: 0,
        use_low_frame: false,
        animation_timer: 0,
        is_animating: false,
        animation_check_timer: 0,
        flight: FlightModel::Grounded,
        drag: DragModel::Released,
        bubble: BubbleModel::Hidden,
        last_low_frame: false,
        last_bubble_visible: false,
        last_drawn_x: px,
        last_drawn_y: py,
    }
}

/// The bubble text a state shows, if any.
pub open spec fn bubble_text_of(m: PetModel) -> Option<Seq<char>> {
    match m.bubble {
        BubbleModel::Showing { text, .. } => Some(text),
        BubbleModel::Hidden => None,
    }
}

/// The frame the current state selects: flight frames cycle 0,1,2,1, else
/// the blink animation picks the low frame.
pub open spec fn frame_of(m: PetModel) -> FrameTag {
    match m.flight {
        FlightModel::Flying { frame, .. } => {
            if frame == 0 {
                FrameTag::Fly0
            } else if frame == 1 {
                FrameTag::Fly1
            } else if frame == 2 {
                FrameTag::Fly2
            } else {
                FrameTag::Fly1
            }
        },
        FlightModel::Grounded => {
            if m.use_low_frame {
                FrameTag::Low
            } else {
                FrameTag::Normal
            }
        },
    }
}

// ---------------------------------------------------------------------------
// The executable state machine
// ---------------------------------------------------------------------------

/// Clamp `v` into `[lo, hi]`.
fn clamp_i64(v: i64, lo: i64, hi: i64) -> (r: i64)
    requires
        lo <= hi,
    ensures
        r == clamp(v as int, lo as int, hi as int),
{
    if v < lo {
        lo
    } else if v > hi {
        hi
    } else {
        v
    }
}

impl PetState {
    /// A fresh pet at the given pixel position (clamped onto the screen),
    /// motionless, idle and grounded, drawing its randomness from `rng`.
    pub fn new(config: PetConfig, messages: Vec<String>, rng: SimpleRng, start_x: i64,
        start_y: i64) -> (r: Self)
        requires
            config.sprite_w <= config.screen_w,
            config.sprite_h <= config.screen_h,
            messages@.len() > 0,
        ensures
            r@ == initial_pet(config, messages@.map_values(|s: String| s@), rng@,
                start_x as int, start_y as int),
            pet_wf(r@),
    {
        let xmax_px = (config.screen_w - config.sprite_w) as i64;
        let ymax_px = (config.screen_h - config.sprite_h) as i64;
        let px = clamp_i64(start_x, 0, xmax_px);
        let py = clamp_i64(start_y, 0, ymax_px);
        PetState {
            config,
            messages,
            rng,
            pos_x: px * 1000,
            pos_y: py * 1000,
            vel_x: 0,
            vel_y: 0,
            target_vel_x: 0,
            facing: Facing::Left,
            behavior: Behavior::Idle,
            idle_timer: 0,
            movement_timer: 0,
            use_low_frame: false,
            animation_timer: 0,
            is_animating: false,
            animation_check_timer: 0,
            flight: Flight::Grounded,
            drag: Drag::Released,
            bubble: Bubble::Hidden,
            last_low_frame: false,
            last_bubble_visible: false,
            last_drawn_x: px,
            last_drawn_y: py,
        }
    }

    /// The floor: the lowest anchor position, in milli-pixels.
    fn floor_milli(&self) -> (r: i64)
        requires
            self@.sprite_h <= self@.screen_h,
        ensures
            r == floor_y_milli(self@),
    {
        ((self.config.screen_h - self.config.sprite_h) as i64) * 1000
    }

    /// The rightmost anchor position, in milli-pixels.
    fn max_x_milli_exec(&self) -> (r: i64)
        requires
            self@.sprite_w <= self@.screen_w,
        ensures
            r == max_x_milli(self@),
    {
        ((self.config.screen_w - self.config.sprite_w) as i64) * 1000
    }

    /// The anchor's x, rounded to whole pixels.
    fn round_x(&self) -> (r: i64)
        requires
            0 <= self@.pos_x <= max_x_milli(self@),
        ensures
            r == round_to_px(self@.pos_x),
    {
        (self.pos_x + 500) / 1000
    }

    /// The anchor's y, rounded to whole pixels.
    fn round_y(&self) -> (r: i64)
        requires
            0 <= self@.pos_y <= floor_y_milli(self@),
        ensures
            r == round_to_px(self@.pos_y),
    {
        (self.pos_y + 500) / 1000
    }

    /// What the presentation layer should paint right now.
    pub fn render_params(&self) -> (r: RenderParams)
        requires
            pet_wf(self@),
        ensures
            r.x == round_to_px(self@.pos_x),
            r.y == round_to_px(self@.pos_y),
            r.frame == frame_of(self@),
            r.facing == self@.facing,
            option_text(r.bubble_text) == bubble_text_of(self@),
    {
        let bubble_text = match &self.bubble {
            Bubble::Showing { text, .. } => Some(text.clone()),
            Bubble::Hidden => None,
        };
        let frame = match &self.flight {
            Flight::Flying { frame, .. } => {
                if *frame == 0 {
                    FrameTag::Fly0
                } else if *frame == 1 {
                    FrameTag::Fly1
                } else if *frame == 2 {
                    FrameTag::Fly2
                } else {
                    FrameTag::Fly1
                }
            },
            Flight::Grounded => {
                if self.use_low_frame {
                    FrameTag::Low
                } else {
                    FrameTag::Normal
                }
            },
        };
        RenderParams {
            x: self.round_x(),
            y: self.round_y(),
            frame,
            facing: self.facing,
            bubble_text,
        }
    }

    /// Attention cue: a ready reminder makes a grounded, undisturbed sprite
    /// jump.
    fn apply_jump_cue(&mut self, reminder_ready: bool)
        requires
            pet_wf(old(self)@),
        ensures
            final(self)@ == step_jump_cue(old(self)@, reminder_ready),
            pet_wf(final(self)@),
    {
        let undisturbed = matches!(self.drag, Drag::Released)
            && matches!(self.bubble, Bubble::Hidden);
        if reminder_ready && undisturbed {
            let floor = self.floor_milli();
            if self.pos_y >= floor - 1000 {
                self.vel_y = JUMP_VELOCITY_MILLI;
            }
        }
    }

    /// The bubble counts up and hides itself after its duration.
    fn apply_bubble_timer(&mut self)
        requires
            pet_wf(old(self)@),
        ensures
            final(self)@ == step_bubble_timer(old(self)@),
            pet_wf(final(self)@),
    {
        let hide = match &self.bubble {
            Bubble::Showing { elapsed, .. } => *elapsed + 1 >= BUBBLE_DURATION,
            Bubble::Hidden => false,
        };
        if hide {
            self.bubble = Bubble::Hidden;
        } else {
            match &mut self.bubble {
                Bubble::Showing { elapsed, .. } => {
                    *elapsed = *elapsed + 1;
                },
                Bubble::Hidden => {},
            }
        }
    }

    /// The flight animation advances and expires.
    fn apply_flight(&mut self)
        requires
            pet_wf(old(self)@),
        ensures
            final(self)@ == step_flight(old(self)@),
            pet_wf(final(self)@),
    {
        match self.flight {
            Flight::Flying { frame, elapsed, anim_timer } => {
                if elapsed + 1 >= FLIGHT_DURATION {
                    self.flight = Flight::Grounded;
                } else if anim_timer + 1 >= FLIGHT_FRAME_TICKS {
                    self.flight = Flight::Flying {
                        frame: (frame + 1) % 4,
                        elapsed: elapsed + 1,
                        anim_timer: 0,
                    };
                } else {
                    self.flight = Flight::Flying {
                        frame,
                        elapsed: elapsed + 1,
                        anim_timer: anim_timer + 1,
                    };
                }
            },
            Flight::Grounded => {},
        }
    }

    /// The idle blink animation: random start/continue decisions on a fixed
    /// cadence, the low frame toggling while animating.
    fn apply_blink(&mut self)
        requires
            pet_wf(old(self)@),
        ensures
            final(self)@ == step_blink(old(self)@),
            pet_wf(final(self)@),
    {
        if matches!(self.flight, Flight::Flying { .. }) {
            return ;
        }
        if self.behavior == Behavior::Idle {
            if self.animation_check_timer + 1 >= BLINK_CHECK_TICKS {
                self.animation_check_timer = 0;
                let frac = self.rng.next_fraction();
                if !self.is_animating {
                    self.is_animating = 10 * frac < FRACTION_ONE - 1;
                } else {
                    self.is_animating = 10 * frac < 7 * (FRACTION_ONE - 1);
                }
            } else {
                self.animation_check_timer = self.animation_check_timer + 1;
            }
            if self.is_animating {
                if self.animation_timer + 1 >= BLINK_FRAME_TICKS {
                    self.animation_timer = 0;
                    self.use_low_frame = !self.use_low_frame;
                } else {
                    self.animation_timer = self.animation_timer + 1;
                }
            } else {
                self.use_low_frame = false;
                self.animation_timer = 0;
            }
        } else {
            self.use_low_frame = false;
            self.animation_timer = 0;
            self.is_animating = false;
            self.animation_check_timer = 0;
        }
    }

    /// Whether the cursor lies in the sprite's bounding box.
    fn hit_test(&self, x: i32, y: i32) -> (r: bool)
        requires
            pet_wf(self@),
        ensures
            r == cursor_in_box(self@, x as int, y as int),
    {
        let px = self.round_x();
        let py = self.round_y();
        (x as i64) >= px && (x as i64) <= px + self.config.sprite_w as i64
            && (y as i64) >= py && (y as i64) <= py + self.config.sprite_h as i64
    }

    /// A left press inside the sprite box starts a drag.
    fn on_left_press(&mut self, x: i32, y: i32)
        requires
            pet_wf(old(self)@),
        ensures
            final(self)@ == step_left_press(old(self)@, x as int, y as int),
            pet_wf(final(self)@),
    {
        if self.hit_test(x, y) {
            let px = self.round_x();
            let py = self.round_y();
            self.drag = Drag::Dragging { offset_x: (x as i64) - px, offset_y: (y as i64) - py };
            self.vel_x = 0;
            self.vel_y = 0;
            self.target_vel_x = 0;
            self.behavior = Behavior::Idle;
        }
    }

    /// Leaving a drag: reset the behaviour timers and start the flight
    /// animation.
    fn enter_flight(&mut self)
        requires
            pet_wf(old(self)@),
        ensures
            final(self)@ == begin_flight(old(self)@),
            pet_wf(final(self)@),
    {
        self.drag = Drag::Released;
        self.movement_timer = 0;
        self.idle_timer = 0;
        self.flight = Flight::Flying { frame: 0, elapsed: 0, anim_timer: 0 };
    }

    /// A left release ends a drag (and only a drag) by entering flight.
    fn on_left_release(&mut self)
        requires
            pet_wf(old(self)@),
        ensures
            final(self)@ == step_left_release(old(self)@),
            pet_wf(final(self)@),
    {
        if matches!(self.drag, Drag::Dragging { .. }) {
            self.enter_flight();
        }
    }

    /// A right press inside the sprite box: show a ready reminder
    /// (consuming it), else toggle the bubble with a random fallback
    /// message.
    #[verifier::rlimit(50)]
    fn on_right_press(&mut self, scheduler: &mut SchedulerState, x: i32, y: i32)
        requires
            pet_wf(old(self)@),
            sched_wf(old(scheduler)@),
        ensures
            (final(self)@, final(scheduler)@)
                == step_right_press(old(self)@, old(scheduler)@, x as int, y as int),
            pet_wf(final(self)@),
            sched_wf(final(scheduler)@),
    {
        if !self.hit_test(x, y) {
            return ;
        }
        if scheduler.has_message_ready() {
            match scheduler.get_message() {
                Some(reminder) => {
                    self.bubble = Bubble::Showing { text: reminder, elapsed: 0 };
                    self.stop_for_bubble();
                },
                None => {
                    proof {
                        assert(false);
                    }
                },
            }
        } else if matches!(self.bubble, Bubble::Showing { .. }) {
            self.bubble = Bubble::Hidden;
        } else {
            let frac = self.rng.next_fraction();
            let len = self.messages.len();
            proof {
                lemma_message_index_bound(frac, len as nat);
            }
            let idx_wide: u128 = (frac as u128) * (len as u128) / (FRACTION_ONE as u128);
            let idx = idx_wide as usize;
            let text = self.messages[idx].clone();
            proof {
                assert(self@.messages[idx as int] == self.messages@[idx as int]@);
            }
            self.bubble = Bubble::Showing { text, elapsed: 0 };
            self.stop_for_bubble();
        }
    }

    /// Showing a bubble stops all motion, forces idle and cancels flight.
    fn stop_for_bubble(&mut self)
        ensures
            final(self)@ == (PetModel {
                vel_x: 0,
                vel_y: 0,
                target_vel_x: 0,
                behavior: Behavior::Idle,
                flight: FlightModel::Grounded,
                ..old(self)@
            }),
    {
        self.vel_x = 0;
        self.vel_y = 0;
        self.target_vel_x = 0;
        self.behavior = Behavior::Idle;
        self.flight = Flight::Grounded;
    }

    /// One input event, dispatched to its handler.
    fn apply_event(&mut self, scheduler: &mut SchedulerState, ev: InputEvent)
        requires
            pet_wf(old(self)@),
            sched_wf(old(scheduler)@),
        ensures
            (final(self)@, final(scheduler)@)
                == step_event(old(self)@, old(scheduler)@, ev),
            pet_wf(final(self)@),
            sched_wf(final(scheduler)@),
    {
        match ev {
            InputEvent::LeftPress { x, y } => self.on_left_press(x, y),
            InputEvent::LeftRelease => self.on_left_release(),
            InputEvent::RightPress { x, y } => self.on_right_press(scheduler, x, y),
        }
    }

    /// All of a tick's events, in arrival order.
    fn apply_events(&mut self, scheduler: &mut SchedulerState, events: &Vec<InputEvent>)
        requires
            pet_wf(old(self)@),
            sched_wf(old(scheduler)@),
        ensures
            (final(self)@, final(scheduler)@)
                == step_events(old(self)@, old(scheduler)@, events@),
            pet_wf(final(self)@),
            sched_wf(final(scheduler)@),
    {
        let ghost m0 = self@;
        let ghost s0 = scheduler@;
        let n = events.len();
        proof {
            assert(events@.skip(0) =~= events@);
        }
        let mut i: usize = 0;
        while i < n
            invariant
                i <= n,
                n == events@.len(),
                pet_wf(self@),
                sched_wf(scheduler@),
                step_events(m0, s0, events@)
                    == step_events(self@, scheduler@, events@.skip(i as int)),
            decreases n - i,
        {
            let ev = events[i];
            proof {
                let rest = events@.skip(i as int);
                assert(rest.len() > 0);
                assert(rest[0] == events@[i as int]);
                assert(rest.drop_first() =~= events@.skip(i as int + 1));
            }
            self.apply_event(scheduler, ev);
            i = i + 1;
        }
        proof {
            assert(events@.skip(n as int) =~= Seq::<InputEvent>::empty());
        }
    }

    /// The randomized idle/move behaviour toggle.
    fn apply_behavior(&mut self)
        requires
            pet_wf(old(self)@),
            old(self)@.drag is Released,
        ensures
            final(self)@ == step_behavior(old(self)@),
            pet_wf(final(self)@),
            final(self)@.drag == old(self)@.drag,
            final(self)@.bubble == old(self)@.bubble,
    {
        self.movement_timer = self.movement_timer + 1;
        self.idle_timer = self.idle_timer + 1;
        if self.behavior == Behavior::Idle {
            let frac = self.rng.next_fraction();
            proof {
                lemma_scaled_bounds(frac, IDLE_BASE_TICKS as int, IDLE_SPAN_TICKS as int);
            }
            let dur: u64 = (IDLE_BASE_TICKS as u64)
                + (frac * (IDLE_SPAN_TICKS as u64)) / FRACTION_ONE;
            if (self.idle_timer as u64) > dur {
                let frac2 = self.rng.next_fraction();
                proof {
                    lemma_scaled_bounds(frac2, SPEED_BASE_MILLI as int, SPEED_SPAN_MILLI as int);
                }
                let speed: i64 = SPEED_BASE_MILLI
                    + ((frac2 * (SPEED_SPAN_MILLI as u64)) / FRACTION_ONE) as i64;
                let frac3 = self.rng.next_fraction();
                self.behavior = Behavior::Moving;
                self.idle_timer = 0;
                self.movement_timer = 0;
                self.target_vel_x = if frac3 >= 0x800000 {
                    speed
                } else {
                    -speed
                };
            }
        } else {
            let frac = self.rng.next_fraction();
            proof {
                lemma_scaled_bounds(frac, MOVE_BASE_TICKS as int, MOVE_SPAN_TICKS as int);
            }
            let dur: u64 = (MOVE_BASE_TICKS as u64)
                + (frac * (MOVE_SPAN_TICKS as u64)) / FRACTION_ONE;
            if (self.movement_timer as u64) > dur {
                self.behavior = Behavior::Idle;
                self.target_vel_x = 0;
                self.movement_timer = 0;
                self.idle_timer = 0;
            }
        }
    }

    /// The motion step: smoothing, gravity, movement, collisions.
    fn apply_motion(&mut self)
        requires
            pet_wf(old(self)@),
            old(self)@.drag is Released,
        ensures
            final(self)@ == step_motion(old(self)@),
            pet_wf(final(self)@),
    {
        let ghost m = self@;
        let d = self.target_vel_x - self.vel_x;
        let vx = if d >= 0 {
            proof {
                lemma_tenth_bounds(d as int);
            }
            self.vel_x + d / 10
        } else {
            proof {
                lemma_tenth_bounds(-(d as int));
            }
            self.vel_x - (-d) / 10
        };
        proof {
            lemma_smooth_between(m.vel_x, m.target_vel_x);
            assert(vx as int == smooth_step(m.vel_x, m.target_vel_x));
        }
        let vy = self.vel_y + GRAVITY_MILLI;
        let x = self.pos_x + vx;
        let y = self.pos_y + vy;
        let floor = self.floor_milli();
        let xmax = self.max_x_milli_exec();

        if y >= floor {
            self.pos_y = floor;
            proof {
                lemma_damp_bounce_props(vy as int);
            }
            self.vel_y = if vy >= 0 {
                -((7 * vy) / 10)
            } else {
                (7 * (-vy)) / 10
            };
        } else {
            self.pos_y = if y < 0 {
                0
            } else {
                y
            };
            self.vel_y = vy;
        }

        if x <= 0 || x >= xmax {
            self.pos_x = clamp_i64(x, 0, xmax);
            proof {
                lemma_damp_wall_props(vx as int);
                lemma_damp_wall_props(m.target_vel_x);
            }
            self.vel_x = if vx >= 0 {
                -((8 * vx) / 10)
            } else {
                (8 * (-vx)) / 10
            };
            let tv = self.target_vel_x;
            self.target_vel_x = if tv >= 0 {
                -((8 * tv) / 10)
            } else {
                (8 * (-tv)) / 10
            };
        } else {
            self.pos_x = x;
            self.vel_x = vx;
        }
    }

    /// Physics and behaviour run only while the sprite is neither dragged
    /// nor showing a bubble.
    fn apply_physics(&mut self)
        requires
            pet_wf(old(self)@),
        ensures
            final(self)@ == step_physics(old(self)@),
            pet_wf(final(self)@),
    {
        if matches!(self.drag, Drag::Released) && matches!(self.bubble, Bubble::Hidden) {
            self.apply_behavior();
            self.apply_motion();
        }
    }

    /// Facing follows the horizontal velocity; decide and record the
    /// repaint.
    fn apply_facing(&mut self) -> (render: bool)
        requires
            pet_wf(old(self)@),
        ensures
            final(self)@ == step_facing(old(self)@).0,
            render == step_facing(old(self)@).1,
            pet_wf(final(self)@),
    {
        let new_facing = if self.vel_x > FACING_THRESHOLD_MILLI {
            Facing::Right
        } else {
            Facing::Left
        };
        let bubble_vis = matches!(self.bubble, Bubble::Showing { .. });
        let visual_change = new_facing != self.facing
            || self.use_low_frame != self.last_low_frame
            || matches!(self.flight, Flight::Flying { .. })
            || bubble_vis != self.last_bubble_visible;
        let px = self.round_x();
        let py = self.round_y();
        let moved = px != self.last_drawn_x || py != self.last_drawn_y;
        let render = visual_change || moved;
        self.facing = new_facing;
        self.last_low_frame = self.use_low_frame;
        self.last_bubble_visible = bubble_vis;
        if render {
            self.last_drawn_x = px;
            self.last_drawn_y = py;
        }
        render
    }

    /// One tick of the state machine. `scheduler` should have been ticked
    /// already; a ready reminder cues the jump and a right press consumes
    /// it. Returns whether the frame must be repainted.
    pub fn update(&mut self, scheduler: &mut SchedulerState, input: &InputSnapshot)
        -> (render: bool)
        requires
            pet_wf(old(self)@),
            sched_wf(old(scheduler)@),
        ensures
            final(self)@ == step_update(old(self)@, old(scheduler)@, input@).0,
            final(scheduler)@ == step_update(old(self)@, old(scheduler)@, input@).1,
            render == step_update(old(self)@, old(scheduler)@, input@).2,
            pet_wf(final(self)@),
            sched_wf(final(scheduler)@),
    {
        let ready = scheduler.has_message_ready();
        self.apply_jump_cue(ready);
        self.apply_events(scheduler, &input.events);
        self.apply_drag_poll(input.cursor_x, input.cursor_y, input.left_button_down);
        self.apply_bubble_timer();
        self.apply_physics();
        self.apply_flight();
        self.apply_blink();
        self.apply_facing()
    }

    /// The anchor, in milli-pixels.
    pub fn position_milli(&self) -> (r: (i64, i64))
        ensures
            r.0 == self@.pos_x,
            r.1 == self@.pos_y,
    {
        (self.pos_x, self.pos_y)
    }

    /// The velocity, in milli-pixels per tick.
    pub fn velocity_milli(&self) -> (r: (i64, i64))
        ensures
            r.0 == self@.vel_x,
            r.1 == self@.vel_y,
    {
        (self.vel_x, self.vel_y)
    }

    /// The velocity the horizontal component approaches, in milli-pixels
    /// per tick.
    pub fn target_velocity_x_milli(&self) -> (r: i64)
        ensures
            r == self@.target_vel_x,
    {
        self.target_vel_x
    }

    /// Whether the sprite is being dragged.
    pub fn is_dragging(&self) -> (r: bool)
        ensures
            r == (self@.drag is Dragging),
    {
        matches!(self.drag, Drag::Dragging { .. })
    }

    /// Whether the flight animation is active.
    pub fn is_flying(&self) -> (r: bool)
        ensures
            r == (self@.flight is Flying),
    {
        matches!(self.flight, Flight::Flying { .. })
    }

    /// Whether the speech bubble is up.
    pub fn bubble_visible(&self) -> (r: bool)
        ensures
            r == (self@.bubble is Showing),
    {
        matches!(self.bubble, Bubble::Showing { .. })
    }

    /// While dragging, the anchor tracks the cursor; if the polled button
    /// state went up, the drag ends as a release does.
    fn apply_drag_poll(&mut self, cursor_x: i32, cursor_y: i32, left_down: bool)
        requires
            pet_wf(old(self)@),
        ensures
            final(self)@ == step_drag_poll(old(self)@, cursor_x as int, cursor_y as int,
                left_down),
            pet_wf(final(self)@),
    {
        match self.drag {
            Drag::Dragging { offset_x, offset_y } => {
                let xmax_px = (self.config.screen_w - self.config.sprite_w) as i64;
                let ymax_px = (self.config.screen_h - self.config.sprite_h) as i64;
                let px = clamp_i64((cursor_x as i64) - offset_x, 0, xmax_px);
                let py = clamp_i64((cursor_y as i64) - offset_y, 0, ymax_px);
                self.pos_x = px * 1000;
                self.pos_y = py * 1000;
                if !left_down {
                    self.enter_flight();
                }
            },
            Drag::Released => {},
        }
    }
}

// ---------------------------------------------------------------------------
// Laws of the state machine
// ---------------------------------------------------------------------------

/// The magnitude of an integer.
pub open spec fn abs_val(v: int) -> int {
    if v >= 0 {
        v
    } else {
        -v
    }
}

/// Floor bounce damping: on a tick whose fall reaches the floor, the anchor
/// lands on the floor and the vertical velocity reverses, keeping at most
/// seven tenths of its pre-collision magnitude — strictly less whenever the
/// pre-collision velocity is not zero.
pub proof fn lemma_floor_bounce(m: PetModel)
    requires
        pet_wf(m),
        m.pos_y + (m.vel_y + GRAVITY_MILLI) >= floor_y_milli(m),
    ensures
        step_motion(m).pos_y == floor_y_milli(m),
        step_motion(m).vel_y == damp_bounce(m.vel_y + GRAVITY_MILLI),
        10 * abs_val(step_motion(m).vel_y) <= 7 * abs_val(m.vel_y + GRAVITY_MILLI),
        m.vel_y + GRAVITY_MILLI != 0
            ==> abs_val(step_motion(m).vel_y) < abs_val(m.vel_y + GRAVITY_MILLI),
        m.vel_y + GRAVITY_MILLI > 0 ==> step_motion(m).vel_y <= 0,
        m.vel_y + GRAVITY_MILLI < 0 ==> step_motion(m).vel_y >= 0,
{
    let vy = m.vel_y + GRAVITY_MILLI;
    lemma_damp_bounce_props(vy);
}

/// Wall bounce damping: on a tick whose move crosses a wall, the anchor is
/// clamped to that wall and both the horizontal velocity and its target
/// reverse, keeping at most eight tenths of their magnitude — strictly less
/// whenever they are not zero.
pub proof fn lemma_wall_bounce(m: PetModel)
    requires
        pet_wf(m),
        m.pos_x + smooth_step(m.vel_x, m.target_vel_x) <= 0
            || m.pos_x + smooth_step(m.vel_x, m.target_vel_x) >= max_x_milli(m),
    ensures
        step_motion(m).pos_x
            == clamp(m.pos_x + smooth_step(m.vel_x, m.target_vel_x), 0, max_x_milli(m)),
        step_motion(m).vel_x == damp_wall(smooth_step(m.vel_x, m.target_vel_x)),
        step_motion(m).target_vel_x == damp_wall(m.target_vel_x),
        10 * abs_val(step_motion(m).vel_x)
            <= 8 * abs_val(smooth_step(m.vel_x, m.target_vel_x)),
        10 * abs_val(step_motion(m).target_vel_x) <= 8 * abs_val(m.target_vel_x),
        smooth_step(m.vel_x, m.target_vel_x) != 0
            ==> abs_val(step_motion(m).vel_x) < abs_val(smooth_step(m.vel_x, m.target_vel_x)),
        m.target_vel_x != 0
            ==> abs_val(step_motion(m).target_vel_x) < abs_val(m.target_vel_x),
        smooth_step(m.vel_x, m.target_vel_x) > 0 ==> step_motion(m).vel_x <= 0,
        smooth_step(m.vel_x, m.target_vel_x) < 0 ==> step_motion(m).vel_x >= 0,
        m.target_vel_x > 0 ==> step_motion(m).target_vel_x <= 0,
        m.target_vel_x < 0 ==> step_motion(m).target_vel_x >= 0,
{
    let vx = smooth_step(m.vel_x, m.target_vel_x);
    lemma_damp_wall_props(vx);
    lemma_damp_wall_props(m.target_vel_x);
}

/// Dragging suspends physics: over a tick with no input events and the
/// left button still held, a dragged sprite keeps zero velocity and zero
/// target velocity, stays dragged with the same grab offset, and its anchor
/// is exactly the cursor minus the offset, clamped to the screen box.
pub proof fn lemma_drag_suspends_physics(m: PetModel, sched: SchedulerModel, input: InputModel)
    requires
        pet_wf(m),
        m.drag is Dragging,
        input.events.len() == 0,
        input.left_button_down,
    ensures
        ({
            let stepped = step_update(m, sched, input).0;
            &&& stepped.vel_x == 0
            &&& stepped.vel_y == 0
            &&& stepped.target_vel_x == 0
            &&& stepped.drag == m.drag
            &&& m.drag matches DragModel::Dragging { offset_x, offset_y }
                ==> stepped.pos_x
                    == clamp(input.cursor_x - offset_x, 0, m.screen_w - m.sprite_w) * 1000
                    && stepped.pos_y
                    == clamp(input.cursor_y - offset_y, 0, m.screen_h - m.sprite_h) * 1000
        }),
{
}

/// What one tick does to the flight animation alone: count up, advance the
/// frame through 0,1,2,3 every `FLIGHT_FRAME_TICKS` ticks (painted
/// 0,1,2,1 by `frame_of`), expire after `FLIGHT_DURATION` ticks.
pub open spec fn flight_tick(f: FlightModel) -> FlightModel {
    match f {
        FlightModel::Flying { frame, elapsed, anim_timer } => {
            if elapsed + 1 >= FLIGHT_DURATION {
                FlightModel::Grounded
            } else if anim_timer + 1 >= FLIGHT_FRAME_TICKS {
                FlightModel::Flying { frame: (frame + 1) % 4, elapsed: elapsed + 1, anim_timer: 0 }
            } else {
                FlightModel::Flying { frame, elapsed: elapsed + 1, anim_timer: anim_timer + 1 }
            }
        },
        FlightModel::Grounded => f,
    }
}

/// A quiet tick: no input events arrived.
pub open spec fn quiet(input: InputModel) -> bool {
    input.events.len() == 0
}

/// Over a quiet tick of an undragged sprite, the flight animation advances
/// by exactly one `flight_tick` and the sprite stays undragged.
pub proof fn lemma_quiet_step_flight(m: PetModel, sched: SchedulerModel, input: InputModel)
    requires
        quiet(input),
        m.drag is Released,
    ensures
        step_update(m, sched, input).0.flight == flight_tick(m.flight),
        step_update(m, sched, input).0.drag is Released,
{
}

/// Running ticks one after the other: the pet state a sequence of input
/// snapshots leads to.
pub open spec fn run_ticks(m: PetModel, sched: SchedulerModel, inputs: Seq<InputModel>)
    -> PetModel
    decreases inputs.len(),
{
    if inputs.len() == 0 {
        m
    } else {
        let (m1, s1, r) = step_update(m, sched, inputs[0]);
        run_ticks(m1, s1, inputs.drop_first())
    }
}

/// Flight self-termination: an undragged flying sprite left alone is
/// grounded again within `FLIGHT_DURATION` ticks of entering flight — after
/// any quiet run long enough to cover the remaining ticks, and it does not
/// take off again.
pub proof fn lemma_flight_self_terminates(m: PetModel, sched: SchedulerModel,
    inputs: Seq<InputModel>)
    requires
        m.drag is Released,
        forall|j: int| 0 <= j < inputs.len() ==> quiet(#[trigger] inputs[j]),
        m.flight matches FlightModel::Flying { elapsed, .. }
            ==> elapsed + inputs.len() >= FLIGHT_DURATION,
        m.flight matches FlightModel::Flying { elapsed, .. } ==> elapsed < FLIGHT_DURATION,
    ensures
        run_ticks(m, sched, inputs).flight is Grounded,
        run_ticks(m, sched, inputs).drag is Released,
    decreases inputs.len(),
{
    match m.flight {
        FlightModel::Grounded => {
            if inputs.len() == 0 {
            } else {
                let (m1, s1, r) = step_update(m, sched, inputs[0]);
                lemma_quiet_step_flight(m, sched, inputs[0]);
                assert(forall|j: int| 0 <= j < inputs.drop_first().len()
                    ==> quiet(#[trigger] inputs.drop_first()[j]));
                lemma_flight_self_terminates(m1, s1, inputs.drop_first());
            }
        },
        FlightModel::Flying { frame, elapsed, anim_timer } => {
            let (m1, s1, r) = step_update(m, sched, inputs[0]);
            lemma_quiet_step_flight(m, sched, inputs[0]);
            assert(forall|j: int| 0 <= j < inputs.drop_first().len()
                ==> quiet(#[trigger] inputs.drop_first()[j]));
            lemma_flight_self_terminates(m1, s1, inputs.drop_first());
        },
    }
}

// ---------------------------------------------------------------------------
// The invariant is preserved by every tick
// ---------------------------------------------------------------------------

/// One input event keeps the invariant on both machines.
proof fn lemma_event_preserves_wf(m: PetModel, sched: SchedulerModel, ev: InputEvent)
    requires
        pet_wf(m),
        sched_wf(sched),
    ensures
        pet_wf(step_event(m, sched, ev).0),
        sched_wf(step_event(m, sched, ev).1),
        step_event(m, sched, ev).0.messages == m.messages,
        step_event(m, sched, ev).0.screen_w == m.screen_w,
        step_event(m, sched, ev).0.screen_h == m.screen_h,
        step_event(m, sched, ev).0.sprite_w == m.sprite_w,
        step_event(m, sched, ev).0.sprite_h == m.sprite_h,
{
    match ev {
        InputEvent::RightPress { x, y } => {
            if cursor_in_box(m, x as int, y as int) && sched.pending_message is None
                && m.bubble is Hidden {
                lemma_message_index_bound(lcg_next(m.rng) % FRACTION_ONE, m.messages.len());
            }
        },
        _ => {},
    }
}

/// A whole tick's events keep the invariant on both machines.
proof fn lemma_events_preserve_wf(m: PetModel, sched: SchedulerModel, evs: Seq<InputEvent>)
    requires
        pet_wf(m),
        sched_wf(sched),
    ensures
        pet_wf(step_events(m, sched, evs).0),
        sched_wf(step_events(m, sched, evs).1),
    decreases evs.len(),
{
    if evs.len() > 0 {
        let (m1, s1) = step_event(m, sched, evs[0]);
        lemma_event_preserves_wf(m, sched, evs[0]);
        lemma_events_preserve_wf(m1, s1, evs.drop_first());
    }
}

/// The behaviour step keeps the invariant of an undragged, bubble-free
/// sprite.
proof fn lemma_behavior_preserves_wf(m: PetModel)
    requires
        pet_wf(m),
        m.drag is Released,
        m.bubble is Hidden,
    ensures
        pet_wf(step_behavior(m)),
        step_behavior(m).drag == m.drag,
        step_behavior(m).bubble == m.bubble,
{
    let m1 = PetModel { movement_timer: m.movement_timer + 1, idle_timer: m.idle_timer + 1, ..m };
    if m1.behavior is Idle {
        let r1 = lcg_next(m1.rng);
        lemma_scaled_bounds(r1 % FRACTION_ONE, IDLE_BASE_TICKS as int, IDLE_SPAN_TICKS as int);
        let r2 = lcg_next(r1);
        lemma_scaled_bounds(r2 % FRACTION_ONE, SPEED_BASE_MILLI as int, SPEED_SPAN_MILLI as int);
    } else {
        let r1 = lcg_next(m1.rng);
        lemma_scaled_bounds(r1 % FRACTION_ONE, MOVE_BASE_TICKS as int, MOVE_SPAN_TICKS as int);
    }
}

/// The motion step keeps the invariant of an undragged sprite.
proof fn lemma_motion_preserves_wf(m: PetModel)
    requires
        pet_wf(m),
        m.drag is Released,
    ensures
        pet_wf(step_motion(m)),
        step_motion(m).drag == m.drag,
        step_motion(m).bubble == m.bubble,
{
    lemma_smooth_between(m.vel_x, m.target_vel_x);
    let vx = smooth_step(m.vel_x, m.target_vel_x);
    let vy = m.vel_y + GRAVITY_MILLI;
    lemma_damp_bounce_props(vy);
    lemma_damp_wall_props(vx);
    lemma_damp_wall_props(m.target_vel_x);
}

/// The jump cue keeps the invariant.
proof fn lemma_jump_cue_preserves_wf(m: PetModel, ready: bool)
    requires
        pet_wf(m),
    ensures
        pet_wf(step_jump_cue(m, ready)),
{
}

/// The drag poll keeps the invariant.
proof fn lemma_drag_poll_preserves_wf(m: PetModel, cx: int, cy: int, down: bool)
    requires
        pet_wf(m),
    ensures
        pet_wf(step_drag_poll(m, cx, cy, down)),
{
}

/// The bubble timer keeps the invariant.
proof fn lemma_bubble_timer_preserves_wf(m: PetModel)
    requires
        pet_wf(m),
    ensures
        pet_wf(step_bubble_timer(m)),
{
}

/// The physics gate keeps the invariant.
proof fn lemma_physics_preserves_wf(m: PetModel)
    requires
        pet_wf(m),
    ensures
        pet_wf(step_physics(m)),
{
    if m.drag is Released && m.bubble is Hidden {
        lemma_behavior_preserves_wf(m);
        lemma_motion_preserves_wf(step_behavior(m));
    }
}

/// The flight animation keeps the invariant.
proof fn lemma_flight_preserves_wf(m: PetModel)
    requires
        pet_wf(m),
    ensures
        pet_wf(step_flight(m)),
{
}

/// The blink animation keeps the invariant.
proof fn lemma_blink_preserves_wf(m: PetModel)
    requires
        pet_wf(m),
    ensures
        pet_wf(step_blink(m)),
{
}

/// The facing and repaint decision keeps the invariant.
proof fn lemma_facing_preserves_wf(m: PetModel)
    requires
        pet_wf(m),
    ensures
        pet_wf(step_facing(m).0),
{
}

/// One whole tick keeps the invariant on both machines.
pub proof fn lemma_update_preserves_wf(m: PetModel, sched: SchedulerModel, input: InputModel)
    requires
        pet_wf(m),
        sched_wf(sched),
    ensures
        pet_wf(step_update(m, sched, input).0),
        sched_wf(step_update(m, sched, input).1),
{
    let m1 = step_jump_cue(m, sched.pending_message is Some);
    lemma_jump_cue_preserves_wf(m, sched.pending_message is Some);
    let (m2, s2) = step_events(m1, sched, input.events);
    lemma_events_preserve_wf(m1, sched, input.events);
    let m3 = step_drag_poll(m2, input.cursor_x, input.cursor_y, input.left_button_down);
    lemma_drag_poll_preserves_wf(m2, input.cursor_x, input.cursor_y, input.left_button_down);
    let m4 = step_bubble_timer(m3);
    lemma_bubble_timer_preserves_wf(m3);
    let m5 = step_physics(m4);
    lemma_physics_preserves_wf(m4);
    let m6 = step_flight(m5);
    lemma_flight_preserves_wf(m5);
    let m7 = step_blink(m6);
    lemma_blink_preserves_wf(m6);
    lemma_facing_preserves_wf(m7);
}

/// Bounds clamping over any run: starting from a well-formed state, after
/// every prefix of any input sequence the anchor lies inside the screen
/// box — horizontally within `[0, screen_w - sprite_w]` pixels, vertically
/// within `[0, screen_h - sprite_h]` — and the whole invariant holds.
pub proof fn lemma_bounds_hold_over_any_run(m: PetModel, sched: SchedulerModel,
    inputs: Seq<InputModel>)
    requires
        pet_wf(m),
        sched_wf(sched),
    ensures
        forall|k: int| 0 <= k <= inputs.len() ==> {
            let at = #[trigger] run_ticks(m, sched, inputs.take(k));
            &&& pet_wf(at)
            &&& 0 <= at.pos_x <= max_x_milli(at)
            &&& 0 <= at.pos_y <= floor_y_milli(at)
        },
    decreases inputs.len(),
{
    assert(inputs.take(0) =~= Seq::<InputModel>::empty());
    if inputs.len() > 0 {
        let (m1, s1, r) = step_update(m, sched, inputs[0]);
        lemma_update_preserves_wf(m, sched, inputs[0]);
        lemma_bounds_hold_over_any_run(m1, s1, inputs.drop_first());
        assert forall|k: int| 0 <= k <= inputs.len() implies {
            let at = #[trigger] run_ticks(m, sched, inputs.take(k));
            &&& pet_wf(at)
            &&& 0 <= at.pos_x <= max_x_milli(at)
            &&& 0 <= at.pos_y <= floor_y_milli(at)
        } by {
            if k == 0 {
                assert(run_ticks(m, sched, inputs.take(0)) == m);
            } else {
                let rest = inputs.drop_first();
                assert(inputs.take(k)[0] == inputs[0]);
                assert(inputs.take(k).drop_first() =~= rest.take(k - 1));
                assert(run_ticks(m, sched, inputs.take(k))
                    == run_ticks(m1, s1, rest.take(k - 1)));
            }
        }
    }
}

/// Drag suspends physics over any run: while every tick of the run arrives
/// with no events and the left button held, a dragged sprite stays dragged
/// with the same grab offset, keeps zero velocity and zero target velocity,
/// and after every tick its anchor is the tick's cursor minus the offset,
/// clamped to the screen box.
#[verifier::rlimit(50)]
pub proof fn lemma_drag_suspends_over_run(m: PetModel, sched: SchedulerModel,
    inputs: Seq<InputModel>)
    requires
        pet_wf(m),
        sched_wf(sched),
        m.drag is Dragging,
        forall|j: int| 0 <= j < inputs.len()
            ==> quiet(#[trigger] inputs[j]) && inputs[j].left_button_down,
    ensures
        forall|k: int| 0 <= k <= inputs.len() ==> {
            let at = #[trigger] run_ticks(m, sched, inputs.take(k));
            &&& at.drag == m.drag
            &&& at.vel_x == 0 && at.vel_y == 0 && at.target_vel_x == 0
            &&& 0 < k ==> at.pos_x
                    == clamp(inputs[k - 1].cursor_x - m.drag->offset_x, 0,
                        m.screen_w - m.sprite_w) * 1000
                    && at.pos_y
                    == clamp(inputs[k - 1].cursor_y - m.drag->offset_y, 0,
                        m.screen_h - m.sprite_h) * 1000
        },
    decreases inputs.len(),
{
    assert(inputs.take(0) =~= Seq::<InputModel>::empty());
    if inputs.len() > 0 {
        let (m1, s1, r) = step_update(m, sched, inputs[0]);
        lemma_update_preserves_wf(m, sched, inputs[0]);
        lemma_drag_suspends_physics(m, sched, inputs[0]);
        assert(forall|j: int| 0 <= j < inputs.drop_first().len()
            ==> quiet(#[trigger] inputs.drop_first()[j])
                && inputs.drop_first()[j].left_button_down);
        lemma_drag_suspends_over_run(m1, s1, inputs.drop_first());
        assert forall|k: int| 0 <= k <= inputs.len() implies {
            let at = #[trigger] run_ticks(m, sched, inputs.take(k));
            &&& at.drag == m.drag
            &&& at.vel_x == 0 && at.vel_y == 0 && at.target_vel_x == 0
            &&& 0 < k ==> at.pos_x
                    == clamp(inputs[k - 1].cursor_x - m.drag->offset_x, 0,
                        m.screen_w - m.sprite_w) * 1000
                    && at.pos_y
                    == clamp(inputs[k - 1].cursor_y - m.drag->offset_y, 0,
                        m.screen_h - m.sprite_h) * 1000
        } by {
            if k == 0 {
                assert(run_ticks(m, sched, inputs.take(0)) == m);
            } else {
                let rest = inputs.drop_first();
                assert(inputs.take(k)[0] == inputs[0]);
                assert(inputs.take(k).drop_first() =~= rest.take(k - 1));
                assert(run_ticks(m, sched, inputs.take(k))
                    == run_ticks(m1, s1, rest.take(k - 1)));
                if k == 1 {
                    assert(rest.take(0) =~= Seq::<InputModel>::empty());
                } else {
                    assert(rest[k - 2] == inputs[k - 1]);
                }
            }
        }
    }
}

} // verus!
