//! The player's body: intents, the physics tick and contact with obstacles.

use vstd::prelude::*;
use crate::fixed::{
    clamp, div_toward_zero, magnitude, sat_add, sat_mul, sat_sub, saturate, scaled_product,
    trunc_div, SCALE,
};
use crate::game::{
    collide, overlaps, spans_touch, Acceleration, CollisionSides, Contacts, GravityCounter,
    JumpLock, Size, Speed, CEILING, FLOOR, LEFT, RIGHT,
};
use crate::loader::PLAYER_SIZE;
use crate::math::{lemma_reduced_sign, reduced, reduction, Vec2, Vector};
use crate::objects::{ObstacleComponent, Rectangle};
use crate::state::{is_playing, playing, AppState, SimulationState};
use rand::seq::SliceRandom;

verus! {

/// Share of the horizontal speed that survives a tick.
pub const PLAYER_DECELERATION_RATE: i64 = 800;

/// Further share that survives a tick on the ground.
pub const PLAYER_FRICTION_RATE: i64 = 800;

/// Horizontal acceleration of one move intent.
pub const PLAYER_ACCELERATION: i64 = 1000;

/// Upward acceleration of a jump.
pub const PLAYER_JUMP_STRENGTH: i64 = 7000;

/// Ticks without gravity that a jump grants.
pub const PLAYER_JUMP_TIME: u32 = 20;

/// Downward speed that gravity adds per tick.
pub const PLAYER_MASS: i64 = 1000;

/// Horizontal speeds below this are snapped to rest.
pub const PLAYER_REST_SPEED: i64 = 500;

/// Vertical speed at which an impact sounds at full volume.
pub const VOLUME_DETERMINATION_BASE: i64 = 20000;

/// What the player asks of the body during one tick.
#[derive(Clone, Copy, Debug, PartialEq, Eq, Structural)]
pub enum PlayerAction {
    MoveLeft,
    MoveRight,
    JumpStart,
    JumpEnd,
}

/// One queued intent.
#[derive(Clone, Copy, Debug, PartialEq, Eq, Structural)]
pub struct PlayerInput(pub PlayerAction);

/// The keys that matter to the player, as sampled for one frame.
#[derive(Clone, Copy, Debug, Default, PartialEq, Eq, Structural)]
pub struct Keys {
    /// The key for moving left is held down.
    pub left_held: bool,
    /// The key for moving right is held down.
    pub right_held: bool,
    /// The jump key went down during this frame.
    pub jump_pressed: bool,
    /// The jump key came up during this frame.
    pub jump_released: bool,
}

/// The single body that the player controls.
#[derive(Clone, Copy, Debug, Default, PartialEq, Eq)]
pub struct Body {
    /// Centre of the body.
    pub position: Vec2,
    pub size: Size,
    pub speed: Speed,
    pub acceleration: Acceleration,
    pub gravity: GravityCounter,
    pub sides: CollisionSides,
    pub jump_lock: JumpLock,
}

/// The state of a body as the rules see it: what a `Body` stands for.
pub struct BodyState {
    /// Centre of the body.
    pub position: Vector,
    /// Full width and height.
    pub size: Vector,
    /// Distance covered per tick.
    pub speed: Vector,
    /// Acceleration asked for since the last tick.
    pub acceleration: Vector,
    /// Ticks for which gravity stays switched off.
    pub gravity: nat,
    /// The sides in contact with an obstacle.
    pub contacts: Contacts,
    /// While set, a jump cannot start.
    pub jump_lock: bool,
}

impl View for Body {
    type V = BodyState;

    open spec fn view(&self) -> BodyState {
        BodyState {
            position: self.position@,
            size: self.size@,
            speed: self.speed@,
            acceleration: self.acceleration@,
            gravity: self.gravity@,
            contacts: self.sides@,
            jump_lock: self.jump_lock@,
        }
    }
}

/// No contact on any side.
pub open spec fn no_contact() -> Contacts {
    Contacts { floor: false, ceiling: false, left: false, right: false }
}

/// The contacts `c` with the one at position `k` added.
pub open spec fn with_contact(c: Contacts, k: int) -> Contacts {
    Contacts {
        floor: c.floor || k == FLOOR,
        ceiling: c.ceiling || k == CEILING,
        left: c.left || k == LEFT,
        right: c.right || k == RIGHT,
    }
}

/// The body as it enters a game: at rest, 600 units right and 300 units up.
pub open spec fn fresh_body() -> BodyState {
    BodyState {
        position: Vector { x: 600 * SCALE, y: 300 * SCALE },
        size: Vector { x: PLAYER_SIZE as int, y: PLAYER_SIZE as int },
        speed: Vector { x: 0, y: 0 },
        acceleration: Vector { x: 0, y: 0 },
        gravity: 0,
        contacts: no_contact(),
        jump_lock: false,
    }
}

/// Creates the player's body.
pub fn spawn_player() -> (body: Body)
    ensures
        body@ == fresh_body(),
{
    Body {
        position: Vec2 { x: 600000, y: 300000 },
        size: Size(Vec2 { x: PLAYER_SIZE, y: PLAYER_SIZE }),
        speed: Speed(Vec2 { x: 0, y: 0 }),
        acceleration: Acceleration(Vec2 { x: 0, y: 0 }),
        gravity: GravityCounter(0),
        sides: CollisionSides([false, false, false, false]),
        jump_lock: JumpLock(false),
    }
}

/// The intents that a frame's keys stand for, in the order in which they are
/// queued: left, right, jump start, jump end.
pub open spec fn intents_of(keys: Keys) -> Seq<PlayerInput> {
    (if keys.left_held {
        seq![PlayerInput(PlayerAction::MoveLeft)]
    } else {
        seq![]
    }) + (if keys.right_held {
        seq![PlayerInput(PlayerAction::MoveRight)]
    } else {
        seq![]
    }) + (if keys.jump_pressed {
        seq![PlayerInput(PlayerAction::JumpStart)]
    } else {
        seq![]
    }) + (if keys.jump_released {
        seq![PlayerInput(PlayerAction::JumpEnd)]
    } else {
        seq![]
    })
}

/// Turns the keys of one frame into queued intents.
pub fn handle_player_keyboard(keys: Keys) -> (queued: Vec<PlayerInput>)
    ensures
        queued@ == intents_of(keys),
{
    let mut queued: Vec<PlayerInput> = Vec::new();
    if keys.left_held {
        queued.push(PlayerInput(PlayerAction::MoveLeft));
    }
    if keys.right_held {
        queued.push(PlayerInput(PlayerAction::MoveRight));
    }
    if keys.jump_pressed {
        queued.push(PlayerInput(PlayerAction::JumpStart));
    }
    if keys.jump_released {
        queued.push(PlayerInput(PlayerAction::JumpEnd));
    }
    assert(queued@ =~= intents_of(keys));
    queued
}

/// The body after one intent.
///
/// Moves add to the pending horizontal acceleration. A jump starts only while
/// the jump lock is open: it adds upward acceleration, closes the lock and
/// suspends gravity for `PLAYER_JUMP_TIME` ticks. The end of a jump brings
/// gravity back at once.
pub open spec fn after_intent(b: BodyState, action: PlayerAction) -> BodyState {
    match action {
        PlayerAction::MoveLeft => BodyState {
            acceleration: Vector {
                x: saturate(b.acceleration.x - PLAYER_ACCELERATION),
                y: b.acceleration.y,
            },
            ..b
        },
        PlayerAction::MoveRight => BodyState {
            acceleration: Vector {
                x: saturate(b.acceleration.x + PLAYER_ACCELERATION),
                y: b.acceleration.y,
            },
            ..b
        },
        PlayerAction::JumpStart => if b.jump_lock {
            b
        } else {
            BodyState {
                acceleration: Vector {
                    x: b.acceleration.x,
                    y: saturate(b.acceleration.y + PLAYER_JUMP_STRENGTH),
                },
                jump_lock: true,
                gravity: PLAYER_JUMP_TIME as nat,
                ..b
            }
        },
        PlayerAction::JumpEnd => BodyState { gravity: 0, ..b },
    }
}

/// The body after a queue of intents, applied first to last.
pub open spec fn after_intents(b: BodyState, queued: Seq<PlayerInput>) -> BodyState {
    queued.fold_left(b, |body: BodyState, input: PlayerInput| after_intent(body, input.0))
}

/// Applies the intents queued for this tick to the body.
pub fn handle_player_input(queued: &Vec<PlayerInput>, body: &mut Body)
    ensures
        final(body)@ == after_intents(old(body)@, queued@),
{
    let mut i: usize = 0;
    while i < queued.len()
        invariant
            i <= queued.len(),
            body@ == after_intents(old(body)@, queued@.take(i as int)),
        decreases queued.len() - i,
    {
        let action = queued[i].0;
        proof {
            assert(queued@.take(i + 1).drop_last() =~= queued@.take(i as int));
        }
        match action {
            PlayerAction::MoveLeft => {
                body.acceleration.0.x = sat_sub(body.acceleration.0.x, PLAYER_ACCELERATION);
            },
            PlayerAction::MoveRight => {
                body.acceleration.0.x = sat_add(body.acceleration.0.x, PLAYER_ACCELERATION);
            },
            PlayerAction::JumpStart => {
                if !body.jump_lock.0 {
                    body.acceleration.0.y = sat_add(body.acceleration.0.y, PLAYER_JUMP_STRENGTH);
                    body.jump_lock.0 = true;
                    body.gravity.0 = PLAYER_JUMP_TIME;
                }
            },
            PlayerAction::JumpEnd => {
                body.gravity.0 = 0;
            },
        }
        i += 1;
    }
    assert(queued@.take(queued.len() as int) =~= queued@);
}

/// Share of the horizontal speed that survives a tick, on the ground and off it.
pub open spec fn friction_ratio(on_floor: bool) -> int {
    if on_floor {
        saturate(scaled_product(PLAYER_DECELERATION_RATE as int, PLAYER_FRICTION_RATE as int))
    } else {
        PLAYER_DECELERATION_RATE as int
    }
}

/// The body after one tick of physics.
///
/// In this order: gravity pulls unless the body stands on a floor or a jump
/// still suspends it; the suspension runs down by one tick; pending
/// acceleration joins the speed, horizontally only where no wall on that side
/// is in contact; pending acceleration is spent; friction reduces the
/// horizontal speed; the speed moves the body; all contacts are forgotten.
pub open spec fn physics_step(b: BodyState) -> BodyState {
    let fallen = if !b.contacts.floor && b.gravity == 0 {
        saturate(b.speed.y - PLAYER_MASS)
    } else {
        b.speed.y
    };
    let pushed = if (b.acceleration.x < 0 && !b.contacts.left) || (b.acceleration.x > 0
        && !b.contacts.right) {
        saturate(b.speed.x + b.acceleration.x)
    } else {
        b.speed.x
    };
    let speed = Vector {
        x: reduced(pushed, friction_ratio(b.contacts.floor), PLAYER_REST_SPEED as int),
        y: saturate(fallen + b.acceleration.y),
    };
    BodyState {
        position: Vector {
            x: saturate(b.position.x + speed.x),
            y: saturate(b.position.y + speed.y),
        },
        speed,
        acceleration: Vector { x: 0, y: 0 },
        gravity: if b.gravity > 0 {
            (b.gravity - 1) as nat
        } else {
            0
        },
        contacts: no_contact(),
        ..b
    }
}

/// Advances the body by one tick of physics.
pub fn update_player_physics(body: &mut Body)
    ensures
        final(body)@ == physics_step(old(body)@),
{
    let on_floor = body.sides.0[FLOOR];
    if !(on_floor || body.gravity.0 > 0) {
        body.speed.0.y = sat_sub(body.speed.0.y, PLAYER_MASS);
    }
    if body.gravity.0 > 0 {
        body.gravity.0 = body.gravity.0 - 1;
    }
    let ax: i64 = body.acceleration.0.x;
    if (ax < 0 && !body.sides.0[LEFT]) || (ax > 0 && !body.sides.0[RIGHT]) {
        body.speed.0.x = sat_add(body.speed.0.x, ax);
    }
    body.speed.0.y = sat_add(body.speed.0.y, body.acceleration.0.y);
    body.acceleration.0.x = 0;
    body.acceleration.0.y = 0;
    let ratio: i64 = if on_floor {
        sat_mul(PLAYER_DECELERATION_RATE, PLAYER_FRICTION_RATE)
    } else {
        PLAYER_DECELERATION_RATE
    };
    body.speed.0.x = reduction(body.speed.0.x, ratio, PLAYER_REST_SPEED);
    body.position.x = sat_add(body.position.x, body.speed.0.x);
    body.position.y = sat_add(body.position.y, body.speed.0.y);
    body.sides.0 = [false, false, false, false];
}

/// The body after `n` ticks of physics with nothing else happening to it.
pub open spec fn after_ticks(b: BodyState, n: nat) -> BodyState
    decreases n,
{
    if n == 0 {
        b
    } else {
        physics_step(after_ticks(b, (n - 1) as nat))
    }
}

/// A body that rests on a floor, without speed or pending acceleration,
/// keeps its place and stays at rest through a tick of physics.
pub proof fn lemma_rest_on_floor(b: BodyState)
    requires
        b.contacts.floor,
        b.speed == (Vector { x: 0, y: 0 }),
        b.acceleration == (Vector { x: 0, y: 0 }),
        i64::MIN <= b.position.x <= i64::MAX,
        i64::MIN <= b.position.y <= i64::MAX,
    ensures
        physics_step(b).position == b.position,
        physics_step(b).speed == (Vector { x: 0, y: 0 }),
{
    lemma_reduced_sign(0, friction_ratio(true), PLAYER_REST_SPEED as int);
}

/// A body in free fall loses `PLAYER_MASS` of vertical speed with every
/// tick, for as long as the speed stays within the range of the numbers.
pub proof fn lemma_free_fall(b: BodyState, n: nat)
    requires
        !b.contacts.floor,
        b.gravity == 0,
        b.acceleration.y == 0,
        i64::MIN <= b.speed.y - n * PLAYER_MASS,
        b.speed.y <= i64::MAX,
    ensures
        after_ticks(b, n).speed.y == b.speed.y - n * PLAYER_MASS,
        forall|k: nat|
            k < n ==> (#[trigger] after_ticks(b, k + 1)).speed.y < after_ticks(b, k).speed.y,
        !after_ticks(b, n).contacts.floor,
        after_ticks(b, n).gravity == 0,
        after_ticks(b, n).acceleration.y == 0,
    decreases n,
{
    if n > 0 {
        let m = (n - 1) as nat;
        lemma_free_fall(b, m);
        assert forall|k: nat| k < n implies (#[trigger] after_ticks(b, k + 1)).speed.y
            < after_ticks(b, k).speed.y by {
            if k == m {
                assert(after_ticks(b, k + 1) == physics_step(after_ticks(b, m)));
            }
        }
    }
}

/// The moves to the right less the moves to the left among queued intents.
pub open spec fn net_moves(queued: Seq<PlayerInput>) -> int
    decreases queued.len(),
{
    if queued.len() == 0 {
        0
    } else {
        net_moves(queued.drop_last()) + match queued.last().0 {
            PlayerAction::MoveLeft => -1int,
            PlayerAction::MoveRight => 1int,
            _ => 0int,
        }
    }
}

/// The moves of one tick add up: as long as the numbers have room for it,
/// the pending horizontal acceleration grows by `PLAYER_ACCELERATION` for
/// every move to the right and shrinks by it for every move to the left.
pub proof fn lemma_moves_add_up(b: BodyState, queued: Seq<PlayerInput>)
    requires
        i64::MIN <= b.acceleration.x - queued.len() * PLAYER_ACCELERATION,
        b.acceleration.x + queued.len() * PLAYER_ACCELERATION <= i64::MAX,
    ensures
        after_intents(b, queued).acceleration.x == b.acceleration.x + net_moves(queued)
            * PLAYER_ACCELERATION,
        -queued.len() <= net_moves(queued) <= queued.len(),
    decreases queued.len(),
{
    if queued.len() > 0 {
        lemma_moves_add_up(b, queued.drop_last());
    }
}

/// A jump closes the lock and suspends gravity; while the lock is closed a
/// further jump changes nothing.
pub proof fn lemma_jump_lock(b: BodyState)
    ensures
        !b.jump_lock ==> after_intent(b, PlayerAction::JumpStart).jump_lock && after_intent(
            b,
            PlayerAction::JumpStart,
        ).gravity == PLAYER_JUMP_TIME,
        b.jump_lock ==> after_intent(b, PlayerAction::JumpStart) == b,
{
}

/// A sound to play, with the volume to play it at.
#[derive(Clone, Copy, Debug, PartialEq, Eq)]
pub struct Impact {
    /// Path of the sound among the game's assets.
    pub sound: &'static str,
    /// Volume, where `ONE` is the sound's own loudness.
    pub volume: i64,
}

/// The impact sounds that the game ships.
pub open spec fn impact_sounds() -> Seq<Seq<char>> {
    seq![
        "audio/impactGeneric_light_000.ogg"@,
        "audio/impactGeneric_light_001.ogg"@,
        "audio/impactGeneric_light_002.ogg"@,
        "audio/impactGeneric_light_003.ogg"@,
        "audio/impactGeneric_light_004.ogg"@,
    ]
}

/// Draws one item of `items` with `SliceRandom::choose` of the crate `rand`,
/// on the generator that `rand::thread_rng` hands out, which seeds itself
/// from the operating system when a thread first uses it.
///
/// Which item comes back is left open. Assumed: nothing comes back exactly
/// when there is no item, and what comes back is one of the items.
#[verifier::external_body]
fn pick_one(items: &[&'static str]) -> (picked: Option<&'static str>)
    ensures
        picked is None <==> items@.len() == 0,
        picked matches Some(s) ==> exists|i: int| 0 <= i < items@.len() && items@[i] == s,
{
    items.choose(&mut rand::thread_rng()).copied()
}

/// Chooses at random the sound for an impact of the given volume.
pub fn play_impact(volume: i64) -> (impact: Impact)
    ensures
        impact.volume == volume,
        impact_sounds().contains(impact.sound@),
{
    let sounds: [&'static str; 5] = [
        "audio/impactGeneric_light_000.ogg",
        "audio/impactGeneric_light_001.ogg",
        "audio/impactGeneric_light_002.ogg",
        "audio/impactGeneric_light_003.ogg",
        "audio/impactGeneric_light_004.ogg",
    ];
    assert(forall|i: int| 0 <= i < 5 ==> sounds@[i]@ == #[trigger] impact_sounds()[i]);
    let sound = match pick_one(sounds.as_slice()) {
        Some(s) => s,
        None => sounds[0],
    };
    Impact { sound, volume }
}

/// Twice the distance between a face of the body and the face of the
/// obstacle that it would rest against: the body's bottom and the obstacle's
/// top at `FLOOR`, top and bottom at `CEILING`, left and right at `LEFT`,
/// right and left at `RIGHT`.
pub open spec fn face_distance(b: BodyState, o: Rectangle, k: int) -> int {
    if k == FLOOR {
        magnitude(2 * b.position.y - b.size.y - (2 * o.position.y + o.size.y))
    } else if k == CEILING {
        magnitude(2 * b.position.y + b.size.y - (2 * o.position.y - o.size.y))
    } else if k == LEFT {
        magnitude(2 * b.position.x - b.size.x - (2 * o.position.x + o.size.x))
    } else {
        magnitude(2 * b.position.x + b.size.x - (2 * o.position.x - o.size.x))
    }
}

/// The side on which the body is resolved against an obstacle: the one with
/// the least face distance, and among equals the first of floor, ceiling,
/// left, right.
pub open spec fn nearest_face(b: BodyState, o: Rectangle) -> int {
    let floor = face_distance(b, o, FLOOR as int);
    let ceiling = face_distance(b, o, CEILING as int);
    let left = face_distance(b, o, LEFT as int);
    let right = face_distance(b, o, RIGHT as int);
    if floor <= ceiling && floor <= left && floor <= right {
        FLOOR as int
    } else if ceiling <= left && ceiling <= right {
        CEILING as int
    } else if left <= right {
        LEFT as int
    } else {
        RIGHT as int
    }
}

/// The nearest face is no further than any face and strictly nearer than
/// every face that is tried before it.
pub proof fn lemma_nearest_face_is_first_least(b: BodyState, o: Rectangle)
    ensures
        FLOOR <= nearest_face(b, o) <= RIGHT,
        forall|k: int|
            FLOOR <= k <= RIGHT ==> face_distance(b, o, nearest_face(b, o)) <= #[trigger] face_distance(
                b,
                o,
                k,
            ),
        forall|k: int|
            FLOOR <= k < nearest_face(b, o) ==> face_distance(b, o, nearest_face(b, o))
                < #[trigger] face_distance(b, o, k),
{
}

/// Half the sum of two extents: the distance between the centres of two
/// spans that touch end to end.
pub open spec fn reach(a: int, b: int) -> int {
    trunc_div(a + b, 2)
}

/// The volume of the sound of an impact at vertical speed `vy`: the speed's
/// magnitude as a share of `VOLUME_DETERMINATION_BASE`.
pub open spec fn impact_volume(vy: int) -> int {
    trunc_div(magnitude(vy) * SCALE, VOLUME_DETERMINATION_BASE as int)
}

/// The body after it has been resolved against an obstacle that it overlaps.
///
/// The body is moved out along one axis so that the nearest pair of faces
/// touch, loses the speed that drove it into the obstacle, and records the
/// contact. Landing on a floor opens the jump lock; hitting a ceiling ends the
/// suspension of gravity.
pub open spec fn resolved(b: BodyState, o: Rectangle) -> BodyState {
    let k = nearest_face(b, o);
    let contacts = with_contact(b.contacts, k);
    if k == FLOOR {
        BodyState {
            position: Vector {
                x: b.position.x,
                y: saturate(o.position.y + reach(b.size.y, o.size.y)),
            },
            speed: Vector {
                x: b.speed.x,
                y: if b.speed.y < 0 {
                    0
                } else {
                    b.speed.y
                },
            },
            jump_lock: false,
            contacts,
            ..b
        }
    } else if k == CEILING {
        BodyState {
            position: Vector {
                x: b.position.x,
                y: saturate(o.position.y - reach(b.size.y, o.size.y)),
            },
            speed: Vector {
                x: b.speed.x,
                y: if b.speed.y > 0 {
                    0
                } else {
                    b.speed.y
                },
            },
            gravity: 0,
            contacts,
            ..b
        }
    } else if k == LEFT {
        BodyState {
            position: Vector {
                x: saturate(o.position.x + reach(b.size.x, o.size.x)),
                y: b.position.y,
            },
            speed: Vector {
                x: if b.speed.x < 0 {
                    0
                } else {
                    b.speed.x
                },
                y: b.speed.y,
            },
            contacts,
            ..b
        }
    } else {
        BodyState {
            position: Vector {
                x: saturate(o.position.x - reach(b.size.x, o.size.x)),
                y: b.position.y,
            },
            speed: Vector {
                x: if b.speed.x > 0 {
                    0
                } else {
                    b.speed.x
                },
                y: b.speed.y,
            },
            contacts,
            ..b
        }
    }
}

/// The volume at which resolving the body against an obstacle sounds: floors
/// and ceilings sound with the vertical speed of the impact, walls are silent.
pub open spec fn impact_on(b: BodyState, o: Rectangle) -> Option<int> {
    let k = nearest_face(b, o);
    if k == FLOOR || k == CEILING {
        Some(impact_volume(b.speed.y))
    } else {
        None
    }
}

fn doubled_distance(centre: i64, extent: i64, other_centre: i64, other_extent: i64) -> (d: i128)
    ensures
        d == magnitude(2 * centre - extent - (2 * other_centre + other_extent)),
{
    let d: i128 = 2 * (centre as i128) - (extent as i128) - (2 * (other_centre as i128) + (
    other_extent as i128));
    if d < 0 {
        -d
    } else {
        d
    }
}

fn doubled_distance_far(centre: i64, extent: i64, other_centre: i64, other_extent: i64) -> (d: i128)
    ensures
        d == magnitude(2 * centre + extent - (2 * other_centre - other_extent)),
{
    let d: i128 = 2 * (centre as i128) + (extent as i128) - (2 * (other_centre as i128) - (
    other_extent as i128));
    if d < 0 {
        -d
    } else {
        d
    }
}

fn half_sum(a: i64, b: i64) -> (h: i128)
    ensures
        h == reach(a as int, b as int),
{
    div_toward_zero(a as i128 + b as i128, 2)
}

fn volume_of(vy: i64) -> (v: i64)
    ensures
        v == impact_volume(vy as int),
{
    let size: i128 = if vy < 0 {
        -(vy as i128)
    } else {
        vy as i128
    };
    let scale: i128 = SCALE as i128;
    assert(scale == 1000);
    let v: i128 = div_toward_zero(size * scale, VOLUME_DETERMINATION_BASE as i128);
    v as i64
}

/// The rectangle of an obstacle with the given centre and size.
pub open spec fn obstacle_at(position: Vec2, size: Size) -> Rectangle {
    Rectangle { position: position@, size: size@ }
}

/// Resolves the body against an obstacle that it overlaps, and chooses the
/// sound of the impact where there is one.
pub fn player_obstacle_collision(
    body: &mut Body,
    obstacle_position: Vec2,
    obstacle_size: &Size,
) -> (impact: Option<Impact>)
    ensures
        final(body)@ == resolved(old(body)@, obstacle_at(obstacle_position, *obstacle_size)),
        impact is Some <==> impact_on(
            old(body)@,
            obstacle_at(obstacle_position, *obstacle_size),
        ) is Some,
        impact matches Some(i) ==> {
            &&& Some(i.volume as int) == impact_on(
                old(body)@,
                obstacle_at(obstacle_position, *obstacle_size),
            )
            &&& impact_sounds().contains(i.sound@)
        },
{
    let floor: i128 = doubled_distance(
        body.position.y,
        body.size.0.y,
        obstacle_position.y,
        obstacle_size.0.y,
    );
    let ceiling: i128 = doubled_distance_far(
        body.position.y,
        body.size.0.y,
        obstacle_position.y,
        obstacle_size.0.y,
    );
    let left: i128 = doubled_distance(
        body.position.x,
        body.size.0.x,
        obstacle_position.x,
        obstacle_size.0.x,
    );
    let right: i128 = doubled_distance_far(
        body.position.x,
        body.size.0.x,
        obstacle_position.x,
        obstacle_size.0.x,
    );
    let mut side: usize = FLOOR;
    let mut least: i128 = floor;
    if ceiling < least {
        side = CEILING;
        least = ceiling;
    }
    if left < least {
        side = LEFT;
        least = left;
    }
    if right < least {
        side = RIGHT;
    }
    assert(side == nearest_face(old(body)@, obstacle_at(obstacle_position, *obstacle_size)));
    let mut impact: Option<Impact> = None;
    if side == FLOOR {
        body.position.y = clamp(
            obstacle_position.y as i128 + half_sum(body.size.0.y, obstacle_size.0.y),
        );
        impact = Some(play_impact(volume_of(body.speed.0.y)));
        body.jump_lock.0 = false;
        if body.speed.0.y < 0 {
            body.speed.0.y = 0;
        }
    } else if side == CEILING {
        body.position.y = clamp(
            obstacle_position.y as i128 - half_sum(body.size.0.y, obstacle_size.0.y),
        );
        impact = Some(play_impact(volume_of(body.speed.0.y)));
        if body.speed.0.y > 0 {
            body.speed.0.y = 0;
        }
        body.gravity.0 = 0;
    } else if side == LEFT {
        body.position.x = clamp(
            obstacle_position.x as i128 + half_sum(body.size.0.x, obstacle_size.0.x),
        );
        if body.speed.0.x < 0 {
            body.speed.0.x = 0;
        }
    } else {
        body.position.x = clamp(
            obstacle_position.x as i128 - half_sum(body.size.0.x, obstacle_size.0.x),
        );
        if body.speed.0.x > 0 {
            body.speed.0.x = 0;
        }
    }
    body.sides.0[side] = true;
    impact
}

/// Whether the body touches a rectangle.
pub open spec fn touches(b: BodyState, r: Rectangle) -> bool {
    overlaps(b.position, b.size, r.position, r.size)
}

/// The body after it has met one obstacle: resolved against it if the two
/// overlap, unchanged if not.
pub open spec fn after_obstacle(b: BodyState, o: Rectangle) -> BodyState {
    if touches(b, o) {
        resolved(b, o)
    } else {
        b
    }
}

/// The body after it has met the obstacles one by one, first to last. Each
/// obstacle meets the body as the obstacles before it have left it.
pub open spec fn after_obstacles(b: BodyState, obstacles: Seq<Rectangle>) -> BodyState {
    obstacles.fold_left(b, |body: BodyState, o: Rectangle| after_obstacle(body, o))
}

/// The volumes of the impacts that sound while the body meets the obstacles,
/// in the order of the obstacles.
pub open spec fn impacts_on(b: BodyState, obstacles: Seq<Rectangle>) -> Seq<int>
    decreases obstacles.len(),
{
    if obstacles.len() == 0 {
        seq![]
    } else {
        let before = after_obstacles(b, obstacles.drop_last());
        let earlier = impacts_on(b, obstacles.drop_last());
        if touches(before, obstacles.last()) && impact_on(before, obstacles.last()) is Some {
            earlier.push(impact_on(before, obstacles.last()).unwrap())
        } else {
            earlier
        }
    }
}

/// Resolves the body against every obstacle that it overlaps, in the order
/// of the list, and returns the sounds of the impacts.
pub fn handle_player_obstacle_collision(body: &mut Body, obstacles: &Vec<ObstacleComponent>) -> (impacts:
    Vec<Impact>)
    ensures
        final(body)@ == after_obstacles(old(body)@, obstacles.deep_view()),
        impacts@.len() == impacts_on(old(body)@, obstacles.deep_view()).len(),
        forall|i: int|
            0 <= i < impacts@.len() ==> {
                &&& (#[trigger] impacts@[i]).volume == impacts_on(
                    old(body)@,
                    obstacles.deep_view(),
                )[i]
                &&& impact_sounds().contains(impacts@[i].sound@)
            },
{
    let mut impacts: Vec<Impact> = Vec::new();
    let mut n: usize = 0;
    let ghost models = obstacles.deep_view();
    while n < obstacles.len()
        invariant
            n <= obstacles.len(),
            models == obstacles.deep_view(),
            body@ == after_obstacles(old(body)@, models.take(n as int)),
            impacts@.len() == impacts_on(old(body)@, models.take(n as int)).len(),
            forall|i: int|
                0 <= i < impacts@.len() ==> {
                    &&& (#[trigger] impacts@[i]).volume == impacts_on(
                        old(body)@,
                        models.take(n as int),
                    )[i]
                    &&& impact_sounds().contains(impacts@[i].sound@)
                },
        decreases obstacles.len() - n,
    {
        let o = obstacles[n];
        proof {
            assert(models.take(n + 1).drop_last() =~= models.take(n as int));
            assert(models.take(n + 1).last() == o@);
            assert(o@ == obstacle_at(o.position, o.size));
        }
        if collide(body.position, body.size.0, o.position, o.size.0) {
            match player_obstacle_collision(body, o.position, &o.size) {
                Some(impact) => {
                    impacts.push(impact);
                },
                None => {},
            }
        }
        n += 1;
    }
    assert(models.take(obstacles.len() as int) =~= models);
    impacts
}

/// Resolving never leaves a gap: a body that overlaps an obstacle still
/// overlaps it afterwards, with the pair of faces that was chosen in
/// contact. Where the extents along the chosen axis add up to an even number
/// of steps, the two faces meet exactly.
pub proof fn lemma_resolved_touches(b: BodyState, o: Rectangle)
    requires
        b.size.x >= 0 && b.size.y >= 0 && o.size.x >= 0 && o.size.y >= 0,
        touches(b, o),
        i64::MIN <= o.position.x - reach(b.size.x, o.size.x),
        o.position.x + reach(b.size.x, o.size.x) <= i64::MAX,
        i64::MIN <= o.position.y - reach(b.size.y, o.size.y),
        o.position.y + reach(b.size.y, o.size.y) <= i64::MAX,
    ensures
        touches(resolved(b, o), o),
        face_distance(resolved(b, o), o, nearest_face(b, o)) <= 1,
        nearest_face(b, o) <= CEILING && (b.size.y + o.size.y) % 2 == 0 ==> face_distance(
            resolved(b, o),
            o,
            nearest_face(b, o),
        ) == 0,
        nearest_face(b, o) >= LEFT && (b.size.x + o.size.x) % 2 == 0 ==> face_distance(
            resolved(b, o),
            o,
            nearest_face(b, o),
        ) == 0,
{
}

/// Landing on a floor opens the jump lock.
pub proof fn lemma_landing_opens_the_lock(b: BodyState, o: Rectangle)
    ensures
        nearest_face(b, o) == FLOOR ==> !resolved(b, o).jump_lock && resolved(
            b,
            o,
        ).contacts.floor,
{
}

/// The body after one fixed tick: the queued intents, then the physics,
/// then the obstacles.
pub open spec fn after_fixed_tick(
    b: BodyState,
    queued: Seq<PlayerInput>,
    obstacles: Seq<Rectangle>,
) -> BodyState {
    after_obstacles(physics_step(after_intents(b, queued)), obstacles)
}

/// Standing is stable: a body at rest whose bottom lies on the top of an
/// obstacle under it is, after a fixed tick without intents, where it was,
/// still at rest, in contact with the floor and free to jump.
pub proof fn lemma_standing_is_stable(b: BodyState, floor: Rectangle)
    requires
        b.contacts.floor,
        b.speed == (Vector { x: 0, y: 0 }),
        b.acceleration == (Vector { x: 0, y: 0 }),
        i64::MIN <= b.position.x <= i64::MAX,
        i64::MIN <= b.position.y <= i64::MAX,
        b.size.x >= 0 && b.size.y >= 0 && floor.size.x >= 0 && floor.size.y >= 0,
        2 * b.position.y - b.size.y == 2 * floor.position.y + floor.size.y,
        spans_touch(b.position.x, b.size.x, floor.position.x, floor.size.x),
    ensures
        after_fixed_tick(b, seq![], seq![floor]).position == b.position,
        after_fixed_tick(b, seq![], seq![floor]).speed == b.speed,
        after_fixed_tick(b, seq![], seq![floor]).contacts == with_contact(
            no_contact(),
            FLOOR as int,
        ),
        !after_fixed_tick(b, seq![], seq![floor]).jump_lock,
{
    let none: Seq<PlayerInput> = seq![];
    assert(none.len() == 0);
    assert(after_intents(b, none) == b);
    lemma_rest_on_floor(b);
    let moved = physics_step(after_intents(b, seq![]));
    assert(moved.position == b.position);
    assert(moved.speed == b.speed);
    let floors = seq![floor];
    assert(floors.drop_last() =~= Seq::<Rectangle>::empty());
    assert(floors.last() == floor);
    assert(after_obstacles(moved, floors.drop_last()) == moved);
    assert(face_distance(moved, floor, FLOOR as int) == 0);
    assert(nearest_face(moved, floor) == FLOOR);
    assert(after_obstacles(moved, floors) == resolved(moved, floor));
}

/// The rules for the player's body.
#[derive(Clone, Copy, Debug, Default, PartialEq, Eq, Structural)]
pub struct PlayerPlugin;

impl PlayerPlugin {
    /// Runs one fixed tick on the body: applies the queued intents, advances
    /// the physics and resolves contact with the obstacles, in this order.
    /// Outside a running game nothing happens.
    pub fn fixed_update(
        app: AppState,
        simulation: SimulationState,
        queued: &Vec<PlayerInput>,
        body: &mut Body,
        obstacles: &Vec<ObstacleComponent>,
    ) -> (impacts: Vec<Impact>)
        ensures
            !playing(app, simulation) ==> *final(body) == *old(body) && impacts@.len() == 0,
            playing(app, simulation) ==> {
                let moved = physics_step(after_intents(old(body)@, queued@));
                &&& final(body)@ == after_fixed_tick(old(body)@, queued@, obstacles.deep_view())
                &&& impacts@.len() == impacts_on(moved, obstacles.deep_view()).len()
                &&& forall|i: int|
                    0 <= i < impacts@.len() ==> {
                        &&& (#[trigger] impacts@[i]).volume == impacts_on(
                            moved,
                            obstacles.deep_view(),
                        )[i]
                        &&& impact_sounds().contains(impacts@[i].sound@)
                    }
            },
    {
        if !is_playing(app, simulation) {
            return Vec::new();
        }
        handle_player_input(queued, body);
        update_player_physics(body);
        handle_player_obstacle_collision(body, obstacles)
    }
}

} // verus!
