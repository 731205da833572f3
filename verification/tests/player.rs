use moving_square::game::{
    Acceleration, CollisionSides, GravityCounter, JumpLock, Size, Speed, CEILING, FLOOR, LEFT,
    RIGHT,
};
use moving_square::math::Vec2;
use moving_square::objects::ObstacleComponent;
use moving_square::player::{
    handle_player_input, handle_player_keyboard, handle_player_obstacle_collision, play_impact,
    player_obstacle_collision, spawn_player, update_player_physics, Body, Keys, PlayerAction,
    PlayerInput, PlayerPlugin, PLAYER_ACCELERATION, PLAYER_DECELERATION_RATE,
    PLAYER_FRICTION_RATE, PLAYER_JUMP_STRENGTH, PLAYER_JUMP_TIME, PLAYER_MASS, PLAYER_REST_SPEED,
    VOLUME_DETERMINATION_BASE,
};
use moving_square::state::{AppState, SimulationState};

const SOUNDS: [&str; 5] = [
    "audio/impactGeneric_light_000.ogg",
    "audio/impactGeneric_light_001.ogg",
    "audio/impactGeneric_light_002.ogg",
    "audio/impactGeneric_light_003.ogg",
    "audio/impactGeneric_light_004.ogg",
];

fn body_at(x: i32, y: i32) -> Body {
    let mut body = spawn_player();
    body.position = Vec2::from_units(x, y);
    body
}

fn obstacle(x: i32, y: i32, w: i32, h: i32) -> ObstacleComponent {
    ObstacleComponent { position: Vec2::from_units(x, y), size: Size(Vec2::from_units(w, h)) }
}

#[test]
fn constants_of_the_player() {
    assert_eq!(PLAYER_DECELERATION_RATE, 800);
    assert_eq!(PLAYER_FRICTION_RATE, 800);
    assert_eq!(PLAYER_ACCELERATION, 1_000);
    assert_eq!(PLAYER_JUMP_STRENGTH, 7_000);
    assert_eq!(PLAYER_JUMP_TIME, 20);
    assert_eq!(PLAYER_MASS, 1_000);
    assert_eq!(PLAYER_REST_SPEED, 500);
    assert_eq!(VOLUME_DETERMINATION_BASE, 20_000);
}

#[test]
fn the_player_spawns_at_rest() {
    let body = spawn_player();
    assert_eq!(body.position, Vec2::from_units(600, 300));
    assert_eq!(body.size, Size(Vec2::from_units(50, 50)));
    assert_eq!(body.speed, Speed(Vec2::zero()));
    assert_eq!(body.acceleration, Acceleration(Vec2::zero()));
    assert_eq!(body.gravity, GravityCounter(0));
    assert_eq!(body.sides, CollisionSides([false; 4]));
    assert_eq!(body.jump_lock, JumpLock(false));
}

#[test]
fn keys_become_intents_in_a_fixed_order() {
    let all = Keys { left_held: true, right_held: true, jump_pressed: true, jump_released: true };
    assert_eq!(
        handle_player_keyboard(all),
        vec![
            PlayerInput(PlayerAction::MoveLeft),
            PlayerInput(PlayerAction::MoveRight),
            PlayerInput(PlayerAction::JumpStart),
            PlayerInput(PlayerAction::JumpEnd),
        ]
    );
    assert!(handle_player_keyboard(Keys::default()).is_empty());
    let some = Keys { left_held: false, right_held: true, jump_pressed: false, jump_released: true };
    assert_eq!(
        handle_player_keyboard(some),
        vec![PlayerInput(PlayerAction::MoveRight), PlayerInput(PlayerAction::JumpEnd)]
    );
}

#[test]
fn moves_add_up() {
    let mut body = spawn_player();
    let queued = vec![
        PlayerInput(PlayerAction::MoveLeft),
        PlayerInput(PlayerAction::MoveLeft),
        PlayerInput(PlayerAction::MoveRight),
        PlayerInput(PlayerAction::MoveLeft),
    ];
    handle_player_input(&queued, &mut body);
    assert_eq!(body.acceleration, Acceleration(Vec2 { x: -2_000, y: 0 }));
    let mut expected = spawn_player();
    expected.acceleration.0.x = -2_000;
    assert_eq!(body.position, expected.position);
    assert_eq!(body.speed, expected.speed);
    assert_eq!(body.gravity, expected.gravity);
    assert_eq!(body.jump_lock, expected.jump_lock);
}

#[test]
fn no_intent_changes_nothing() {
    let mut body = body_at(3, 4);
    body.speed.0.x = 77;
    handle_player_input(&Vec::new(), &mut body);
    assert_eq!(body.position, Vec2::from_units(3, 4));
    assert_eq!(body.speed, Speed(Vec2 { x: 77, y: 0 }));
    assert_eq!(body.acceleration, Acceleration(Vec2::zero()));
}

#[test]
fn moves_saturate() {
    let mut body = spawn_player();
    body.acceleration.0.x = i64::MAX;
    handle_player_input(&vec![PlayerInput(PlayerAction::MoveRight)], &mut body);
    assert_eq!(body.acceleration.0.x, i64::MAX);
    body.acceleration.0.x = i64::MIN;
    handle_player_input(&vec![PlayerInput(PlayerAction::MoveLeft)], &mut body);
    assert_eq!(body.acceleration.0.x, i64::MIN);
}

#[test]
fn a_jump_locks_until_landing() {
    let mut body = body_at(100, 80);
    handle_player_input(&vec![PlayerInput(PlayerAction::JumpStart)], &mut body);
    assert_eq!(body.jump_lock, JumpLock(true));
    assert_eq!(body.gravity, GravityCounter(PLAYER_JUMP_TIME));
    assert_eq!(body.acceleration, Acceleration(Vec2 { x: 0, y: PLAYER_JUMP_STRENGTH }));

    body.gravity = GravityCounter(5);
    let locked = body;
    handle_player_input(&vec![PlayerInput(PlayerAction::JumpStart)], &mut body);
    assert_eq!(body.jump_lock, locked.jump_lock);
    assert_eq!(body.gravity, GravityCounter(5));
    assert_eq!(body.acceleration, locked.acceleration);
    assert_eq!(body.speed, locked.speed);
    assert_eq!(body.position, locked.position);

    body.position = Vec2::from_units(100, 74);
    let floor = obstacle(100, 25, 200, 50);
    let _ = player_obstacle_collision(&mut body, floor.position, &floor.size);
    assert_eq!(body.jump_lock, JumpLock(false));
    assert!(body.sides.0[FLOOR]);

    handle_player_input(&vec![PlayerInput(PlayerAction::JumpStart)], &mut body);
    assert_eq!(body.jump_lock, JumpLock(true));
    assert_eq!(body.gravity, GravityCounter(PLAYER_JUMP_TIME));
}

#[test]
fn the_end_of_a_jump_brings_gravity_back() {
    let mut body = spawn_player();
    handle_player_input(
        &vec![PlayerInput(PlayerAction::JumpStart), PlayerInput(PlayerAction::JumpEnd)],
        &mut body,
    );
    assert_eq!(body.gravity, GravityCounter(0));
    assert_eq!(body.jump_lock, JumpLock(true));
    assert_eq!(body.acceleration.0.y, PLAYER_JUMP_STRENGTH);
}

#[test]
fn a_body_at_rest_on_a_floor_stays() {
    let mut body = body_at(100, 75);
    body.sides.0[FLOOR] = true;
    update_player_physics(&mut body);
    assert_eq!(body.position, Vec2::from_units(100, 75));
    assert_eq!(body.speed, Speed(Vec2::zero()));
}

#[test]
fn free_fall_gains_one_mass_per_tick() {
    let mut body = spawn_player();
    let mut last: i64 = body.speed.0.y;
    for tick in 1..=40i64 {
        update_player_physics(&mut body);
        assert_eq!(body.speed.0.y, -PLAYER_MASS * tick);
        assert!(body.speed.0.y < last);
        last = body.speed.0.y;
    }
    assert_eq!(body.position.y, 300_000 - 1_000 * (40 * 41 / 2));
    assert_eq!(body.position.x, 600_000);
}

#[test]
fn free_fall_stops_at_the_end_of_the_numbers() {
    let mut body = spawn_player();
    body.speed.0.y = i64::MIN + 500;
    body.position.y = i64::MIN + 10;
    update_player_physics(&mut body);
    assert_eq!(body.speed.0.y, i64::MIN);
    assert_eq!(body.position.y, i64::MIN);
}

#[test]
fn a_jump_suspends_gravity_for_its_time() {
    let mut body = spawn_player();
    handle_player_input(&vec![PlayerInput(PlayerAction::JumpStart)], &mut body);
    update_player_physics(&mut body);
    assert_eq!(body.speed.0.y, 7_000);
    assert_eq!(body.gravity, GravityCounter(19));
    assert_eq!(body.position.y, 307_000);
    assert_eq!(body.acceleration, Acceleration(Vec2::zero()));
    for _ in 0..19 {
        update_player_physics(&mut body);
        assert_eq!(body.speed.0.y, 7_000);
    }
    assert_eq!(body.gravity, GravityCounter(0));
    update_player_physics(&mut body);
    assert_eq!(body.speed.0.y, 6_000);
}

#[test]
fn friction_is_stronger_on_the_ground() {
    let mut airborne = spawn_player();
    airborne.speed.0.x = 10_000;
    update_player_physics(&mut airborne);
    assert_eq!(airborne.speed.0.x, 8_000);
    assert_eq!(airborne.position.x, 608_000);

    let mut grounded = spawn_player();
    grounded.sides.0[FLOOR] = true;
    grounded.speed.0.x = 10_000;
    update_player_physics(&mut grounded);
    assert_eq!(grounded.speed.0.x, 6_400);
    assert_eq!(grounded.position.x, 606_400);
    assert_eq!(grounded.speed.0.y, 0);
}

#[test]
fn slow_bodies_come_to_rest() {
    let mut body = spawn_player();
    body.speed.0.x = 600;
    update_player_physics(&mut body);
    assert_eq!(body.speed.0.x, 0);
    assert_eq!(body.position.x, 600_000);
    body.speed.0.x = -625;
    update_player_physics(&mut body);
    assert_eq!(body.speed.0.x, -500);
    assert_eq!(body.position.x, 599_500);
}

#[test]
fn walls_block_acceleration_into_them() {
    let mut body = spawn_player();
    body.sides.0[LEFT] = true;
    body.acceleration.0.x = -3_000;
    update_player_physics(&mut body);
    assert_eq!(body.speed.0.x, 0);
    assert_eq!(body.acceleration, Acceleration(Vec2::zero()));

    let mut body = spawn_player();
    body.sides.0[RIGHT] = true;
    body.acceleration.0.x = 3_000;
    update_player_physics(&mut body);
    assert_eq!(body.speed.0.x, 0);

    let mut body = spawn_player();
    body.sides.0[LEFT] = true;
    body.acceleration.0.x = 3_000;
    update_player_physics(&mut body);
    assert_eq!(body.speed.0.x, 2_400);

    let mut body = spawn_player();
    body.sides.0[RIGHT] = true;
    body.acceleration.0.x = -3_000;
    update_player_physics(&mut body);
    assert_eq!(body.speed.0.x, -2_400);
}

#[test]
fn a_tick_forgets_contacts_and_keeps_the_rest() {
    let mut body = spawn_player();
    body.sides = CollisionSides([true; 4]);
    body.jump_lock = JumpLock(true);
    body.acceleration = Acceleration(Vec2 { x: 0, y: 2_000 });
    update_player_physics(&mut body);
    assert_eq!(body.sides, CollisionSides([false; 4]));
    assert_eq!(body.jump_lock, JumpLock(true));
    assert_eq!(body.size, Size(Vec2::from_units(50, 50)));
    assert_eq!(body.speed.0.y, 2_000);
    assert_eq!(body.position.y, 302_000);
}

#[test]
fn landing_on_a_floor() {
    let mut body = body_at(100, 74);
    body.speed = Speed(Vec2 { x: 1_234, y: -3_000 });
    body.jump_lock = JumpLock(true);
    body.gravity = GravityCounter(4);
    let floor = obstacle(100, 25, 200, 50);
    let impact = player_obstacle_collision(&mut body, floor.position, &floor.size);
    assert_eq!(body.position, Vec2::from_units(100, 75));
    assert_eq!(body.speed, Speed(Vec2 { x: 1_234, y: 0 }));
    assert_eq!(body.jump_lock, JumpLock(false));
    assert_eq!(body.gravity, GravityCounter(4));
    assert_eq!(body.sides, CollisionSides([true, false, false, false]));
    let impact = impact.expect("a floor sounds");
    assert_eq!(impact.volume, 150);
    assert!(SOUNDS.contains(&impact.sound));
}

#[test]
fn rising_through_a_floor_contact_keeps_the_speed() {
    let mut body = body_at(100, 74);
    body.speed = Speed(Vec2 { x: 0, y: 5_000 });
    let floor = obstacle(100, 25, 200, 50);
    let impact = player_obstacle_collision(&mut body, floor.position, &floor.size);
    assert_eq!(body.speed.0.y, 5_000);
    assert_eq!(impact.expect("a floor sounds").volume, 250);
}

#[test]
fn bumping_into_a_ceiling() {
    let mut body = body_at(100, 76);
    body.speed = Speed(Vec2 { x: -10, y: 7_000 });
    body.jump_lock = JumpLock(true);
    body.gravity = GravityCounter(12);
    let ceiling = obstacle(100, 125, 200, 50);
    let impact = player_obstacle_collision(&mut body, ceiling.position, &ceiling.size);
    assert_eq!(body.position, Vec2::from_units(100, 75));
    assert_eq!(body.speed, Speed(Vec2 { x: -10, y: 0 }));
    assert_eq!(body.gravity, GravityCounter(0));
    assert_eq!(body.jump_lock, JumpLock(true));
    assert_eq!(body.sides, CollisionSides([false, true, false, false]));
    assert_eq!(impact.expect("a ceiling sounds").volume, 350);
}

#[test]
fn running_into_walls() {
    let mut body = body_at(126, 100);
    body.speed = Speed(Vec2 { x: -4_000, y: -1_000 });
    let wall = obstacle(75, 100, 50, 400);
    let impact = player_obstacle_collision(&mut body, wall.position, &wall.size);
    assert_eq!(body.position, Vec2::from_units(125, 100));
    assert_eq!(body.speed, Speed(Vec2 { x: 0, y: -1_000 }));
    assert_eq!(body.sides, CollisionSides([false, false, true, false]));
    assert!(impact.is_none());

    let mut body = body_at(24, 100);
    body.speed = Speed(Vec2 { x: 4_000, y: 2_000 });
    let impact = player_obstacle_collision(&mut body, wall.position, &wall.size);
    assert_eq!(body.position, Vec2::from_units(25, 100));
    assert_eq!(body.speed, Speed(Vec2 { x: 0, y: 2_000 }));
    assert_eq!(body.sides, CollisionSides([false, false, false, true]));
    assert!(impact.is_none());
}

#[test]
fn walls_do_not_stop_a_body_that_moves_away() {
    let wall = obstacle(75, 100, 50, 400);
    let mut body = body_at(126, 100);
    body.speed = Speed(Vec2 { x: 4_000, y: 0 });
    let _ = player_obstacle_collision(&mut body, wall.position, &wall.size);
    assert_eq!(body.speed.0.x, 4_000);
    let mut body = body_at(24, 100);
    body.speed = Speed(Vec2 { x: -4_000, y: 0 });
    let _ = player_obstacle_collision(&mut body, wall.position, &wall.size);
    assert_eq!(body.speed.0.x, -4_000);
}

#[test]
fn equal_distances_go_to_the_first_face() {
    let mut body = body_at(0, 0);
    let below_left = obstacle(-50, -50, 50, 50);
    let _ = player_obstacle_collision(&mut body, below_left.position, &below_left.size);
    assert_eq!(body.sides, CollisionSides([true, false, false, false]));
    assert_eq!(body.position, Vec2::from_units(0, 0));

    let mut body = body_at(0, 0);
    let above_right = obstacle(50, 50, 50, 50);
    let _ = player_obstacle_collision(&mut body, above_right.position, &above_right.size);
    assert_eq!(body.sides, CollisionSides([false, true, false, false]));

    let mut body = body_at(0, 0);
    let pillar = obstacle(0, 0, 10, 100);
    let _ = player_obstacle_collision(&mut body, pillar.position, &pillar.size);
    assert_eq!(body.sides, CollisionSides([false, false, true, false]));
    assert_eq!(body.position, Vec2::from_units(30, 0));

    let mut body = body_at(0, 0);
    let same = obstacle(0, 0, 50, 50);
    let _ = player_obstacle_collision(&mut body, same.position, &same.size);
    assert_eq!(body.sides, CollisionSides([true, false, false, false]));
    assert_eq!(body.position, Vec2::from_units(0, 50));

    let mut body = body_at(0, 0);
    let slab = obstacle(0, 0, 100, 10);
    let _ = player_obstacle_collision(&mut body, slab.position, &slab.size);
    assert_eq!(body.sides, CollisionSides([true, false, false, false]));
    assert_eq!(body.position, Vec2::from_units(0, 30));
}

#[test]
fn a_contact_adds_to_the_contacts_of_the_tick() {
    let mut body = body_at(100, 74);
    body.sides = CollisionSides([false, false, false, true]);
    let floor = obstacle(100, 25, 200, 50);
    let _ = player_obstacle_collision(&mut body, floor.position, &floor.size);
    assert_eq!(body.sides, CollisionSides([true, false, false, true]));
}

#[test]
fn odd_extents_rest_half_a_step_inside() {
    let mut body = spawn_player();
    body.size = Size(Vec2 { x: 50_000, y: 50_001 });
    body.position = Vec2 { x: 0, y: 49_000 };
    let floor = ObstacleComponent {
        position: Vec2 { x: 0, y: 0 },
        size: Size(Vec2 { x: 400_000, y: 50_000 }),
    };
    let _ = player_obstacle_collision(&mut body, floor.position, &floor.size);
    assert_eq!(body.position.y, 50_000);
}

#[test]
fn resolving_saturates() {
    let mut body = spawn_player();
    body.position = Vec2 { x: 0, y: i64::MAX };
    let floor = ObstacleComponent {
        position: Vec2 { x: 0, y: i64::MAX - 10 },
        size: Size(Vec2 { x: 10_000_000, y: 100_000 }),
    };
    let _ = player_obstacle_collision(&mut body, floor.position, &floor.size);
    assert_eq!(body.position, Vec2 { x: 0, y: i64::MAX });
    assert_eq!(body.sides, CollisionSides([true, false, false, false]));

    let mut body = spawn_player();
    body.position = Vec2 { x: i64::MIN, y: 0 };
    let wall = ObstacleComponent {
        position: Vec2 { x: i64::MIN + 10, y: 0 },
        size: Size(Vec2 { x: 100_000, y: 10_000_000 }),
    };
    let _ = player_obstacle_collision(&mut body, wall.position, &wall.size);
    assert_eq!(body.position, Vec2 { x: i64::MIN, y: 0 });
    assert_eq!(body.sides, CollisionSides([false, false, false, true]));
}

#[test]
fn the_volume_follows_the_speed() {
    let floor = obstacle(100, 25, 200, 50);
    for (vy, volume) in [(0i64, 0i64), (-19, 0), (-20, 1), (-20_000, 1_000), (-50_000, 2_500), (20, 1)] {
        let mut body = body_at(100, 74);
        body.speed.0.y = vy;
        let impact = player_obstacle_collision(&mut body, floor.position, &floor.size);
        assert_eq!(impact.expect("a floor sounds").volume, volume);
    }
    let mut body = body_at(100, 74);
    body.speed.0.y = i64::MIN;
    let impact = player_obstacle_collision(&mut body, floor.position, &floor.size);
    assert_eq!(impact.expect("a floor sounds").volume, 461_168_601_842_738_790);
}

#[test]
fn impacts_use_the_shipped_sounds() {
    let mut seen = [false; 5];
    for round in 0..400i64 {
        let impact = play_impact(round);
        assert_eq!(impact.volume, round);
        let place = SOUNDS.iter().position(|s| *s == impact.sound);
        seen[place.expect("a shipped sound")] = true;
    }
    assert!(seen.iter().filter(|s| **s).count() >= 2);
}

#[test]
fn obstacles_are_met_in_their_order() {
    let mut body = body_at(100, 74);
    body.speed = Speed(Vec2 { x: -2_000, y: -3_000 });
    let obstacles = vec![
        obstacle(100, 25, 200, 50),
        obstacle(1_000, 1_000, 10, 10),
        obstacle(50, 75, 50, 50),
    ];
    let impacts = handle_player_obstacle_collision(&mut body, &obstacles);
    assert_eq!(body.position, Vec2::from_units(100, 75));
    assert_eq!(body.speed, Speed(Vec2::zero()));
    assert_eq!(body.sides, CollisionSides([true, false, true, false]));
    assert_eq!(impacts.len(), 1);
    assert_eq!(impacts[0].volume, 150);
    assert!(SOUNDS.contains(&impacts[0].sound));
}

#[test]
fn without_obstacles_nothing_is_resolved() {
    let mut body = body_at(100, 74);
    body.speed = Speed(Vec2 { x: -2_000, y: -3_000 });
    let impacts = handle_player_obstacle_collision(&mut body, &Vec::new());
    assert!(impacts.is_empty());
    assert_eq!(body.position, Vec2::from_units(100, 74));
    assert_eq!(body.speed, Speed(Vec2 { x: -2_000, y: -3_000 }));
    assert_eq!(body.sides, CollisionSides([false; 4]));

    let far = vec![obstacle(1_000, 1_000, 10, 10)];
    let impacts = handle_player_obstacle_collision(&mut body, &far);
    assert!(impacts.is_empty());
    assert_eq!(body.position, Vec2::from_units(100, 74));
    assert_eq!(body.sides, CollisionSides([false; 4]));
}

#[test]
fn an_earlier_obstacle_can_move_the_body_off_a_later_one() {
    let mut body = body_at(0, 0);
    let obstacles = vec![obstacle(0, -40, 50, 50), obstacle(0, -51, 50, 50)];
    let impacts = handle_player_obstacle_collision(&mut body, &obstacles);
    assert_eq!(body.position, Vec2::from_units(0, 10));
    assert_eq!(body.sides, CollisionSides([true, false, false, false]));
    assert_eq!(impacts.len(), 1);
}

#[test]
fn a_fixed_tick_runs_intents_physics_and_contacts() {
    let mut body = body_at(100, 75);
    body.sides.0[FLOOR] = true;
    let floor = vec![obstacle(100, 25, 600, 50)];
    let queued = vec![PlayerInput(PlayerAction::MoveRight), PlayerInput(PlayerAction::JumpStart)];
    let impacts = PlayerPlugin::fixed_update(
        AppState::Game,
        SimulationState::Running,
        &queued,
        &mut body,
        &floor,
    );
    assert_eq!(body.speed, Speed(Vec2 { x: 640, y: 7_000 }));
    assert_eq!(body.position, Vec2 { x: 100_640, y: 82_000 });
    assert_eq!(body.gravity, GravityCounter(19));
    assert_eq!(body.jump_lock, JumpLock(true));
    assert_eq!(body.sides, CollisionSides([false; 4]));
    assert!(impacts.is_empty());
}

#[test]
fn a_fixed_tick_lands_a_falling_body() {
    let mut body = body_at(100, 76);
    body.speed.0.y = -2_000;
    body.jump_lock = JumpLock(true);
    let floor = vec![obstacle(100, 25, 600, 50)];
    let impacts = PlayerPlugin::fixed_update(
        AppState::Game,
        SimulationState::Running,
        &Vec::new(),
        &mut body,
        &floor,
    );
    assert_eq!(body.position, Vec2::from_units(100, 75));
    assert_eq!(body.speed.0.y, 0);
    assert_eq!(body.jump_lock, JumpLock(false));
    assert!(body.sides.0[FLOOR]);
    assert!(!body.sides.0[CEILING]);
    assert_eq!(impacts.len(), 1);
    assert_eq!(impacts[0].volume, 150);
}

#[test]
fn no_fixed_tick_outside_a_running_game() {
    let floor = vec![obstacle(100, 25, 600, 50)];
    let queued = vec![PlayerInput(PlayerAction::MoveRight)];
    for (app, simulation) in [
        (AppState::Game, SimulationState::Paused),
        (AppState::MainMenu, SimulationState::Running),
        (AppState::Levels, SimulationState::Running),
        (AppState::MainMenu, SimulationState::Paused),
    ] {
        let mut body = body_at(100, 76);
        body.speed.0.y = -2_000;
        let impacts = PlayerPlugin::fixed_update(app, simulation, &queued, &mut body, &floor);
        assert!(impacts.is_empty());
        assert_eq!(body.position, Vec2::from_units(100, 76));
        assert_eq!(body.speed, Speed(Vec2 { x: 0, y: -2_000 }));
        assert_eq!(body.acceleration, Acceleration(Vec2::zero()));
    }
}
