use bevy::input::keyboard::KeyCode;
use bevy::input::Input;
use combine_sim::combine::{spawn_box, CombinableObject};
use combine_sim::events::{CollisionEvent, KeyboardInput};
use combine_sim::math::Vec3;
use combine_sim::player::{spawn_player, Grounded, Player};
use combine_sim::schedule::run_frame;
use combine_sim::world::{Entity, Transform, World};

fn candidates_are_valid(world: &World) -> bool {
    (0..world.entity_count() as u64).all(|id| match world.get(Entity(id)) {
        Some(components) => match components.player {
            Some(Player { entity_to_combine: Some(target), .. }) => match world.get(target) {
                Some(found) => found.combinable.is_some(),
                None => false,
            },
            _ => true,
        },
        None => true,
    })
}

fn shows_the_right_material(world: &World, entity: Entity) -> bool {
    let components = world.get(entity).unwrap();
    let combinable = components.combinable.unwrap();
    let expected = if combinable.highlighted {
        world.highlight_material()
    } else {
        combinable.original_material
    };
    components.material == Some(expected)
}

#[test]
fn proximity_then_confirm() {
    let mut world = World::new();
    let player = spawn_player(&mut world, Vec3::new(0, 0, 0));
    let item = spawn_box(&mut world, Vec3::new(3000, 0, 0));
    let removed =
        run_frame(&mut world, &[CollisionEvent::Started(player, item)], &KeyboardInput::idle());
    assert_eq!(removed, vec![]);
    assert!(world.get(item).unwrap().combinable.unwrap().highlighted);
    assert_eq!(world.get(player).unwrap().player.unwrap().entity_to_combine, Some(item));
    let confirm = KeyboardInput { confirm_just_pressed: true, ..KeyboardInput::idle() };
    let removed = run_frame(&mut world, &[], &confirm);
    assert_eq!(removed, vec![item]);
    assert_eq!(world.get(item), None);
    let after = world.get(player).unwrap();
    assert_eq!(after.player.unwrap().combined_with, Some(CombinableObject::Box));
    assert_eq!(after.player.unwrap().entity_to_combine, None);
    assert_eq!(after.transform, Some(Transform { translation: Vec3::new(3000, 0, 0) }));
}

#[test]
fn two_interactables_touched_in_one_frame() {
    let mut world = World::new();
    let player = spawn_player(&mut world, Vec3::new(0, 0, 0));
    let a = spawn_box(&mut world, Vec3::new(3000, 0, 0));
    let b = spawn_box(&mut world, Vec3::new(-3000, 0, 0));
    run_frame(
        &mut world,
        &[CollisionEvent::Started(player, a), CollisionEvent::Started(player, b)],
        &KeyboardInput::idle(),
    );
    assert_eq!(world.get(player).unwrap().player.unwrap().entity_to_combine, Some(b));
    assert!(world.get(a).unwrap().combinable.unwrap().highlighted);
    assert!(world.get(b).unwrap().combinable.unwrap().highlighted);
}

#[test]
fn a_held_confirm_key_combines_once() {
    let mut world = World::new();
    let player = spawn_player(&mut world, Vec3::new(0, 0, 0));
    let item = spawn_box(&mut world, Vec3::new(3000, 0, 0));
    let other = spawn_box(&mut world, Vec3::new(-3000, 0, 0));
    let mut keys = Input::<KeyCode>::default();
    let mut removed = Vec::new();
    for frame in 0..6 {
        keys.clear();
        if frame == 1 {
            keys.press(KeyCode::A);
        }
        let events = match frame {
            0 => vec![CollisionEvent::Started(player, item)],
            3 => vec![CollisionEvent::Started(player, other)],
            _ => vec![],
        };
        removed.extend(run_frame(&mut world, &events, &KeyboardInput::poll(&keys)));
    }
    assert!(keys.pressed(KeyCode::A));
    assert_eq!(removed, vec![item]);
    assert!(world.contains(other));
    assert_eq!(world.get(player).unwrap().player.unwrap().entity_to_combine, Some(other));
}

#[test]
fn a_contact_and_a_confirm_in_one_frame_combine_in_that_frame() {
    let mut world = World::new();
    let player = spawn_player(&mut world, Vec3::new(0, 0, 0));
    let item = spawn_box(&mut world, Vec3::new(3000, 0, 0));
    let confirm = KeyboardInput { confirm_just_pressed: true, ..KeyboardInput::idle() };
    let removed = run_frame(&mut world, &[CollisionEvent::Started(item, player)], &confirm);
    assert_eq!(removed, vec![item]);
    assert!(!world.contains(item));
}

#[test]
fn a_frame_with_jump_and_walk_keys() {
    let mut world = World::new();
    let player = spawn_player(&mut world, Vec3::new(0, 500, 0));
    let input = KeyboardInput { left: true, jump_just_pressed: true, ..KeyboardInput::idle() };
    run_frame(&mut world, &[], &input);
    let after = world.get(player).unwrap();
    assert_eq!(after.velocity.unwrap().linvel, Vec3::new(-10_000, 10_000, 0));
    assert_eq!(after.grounded, Some(Grounded(false)));
}

#[test]
fn landing_and_jumping_in_one_frame_leaves_the_ground() {
    let mut world = World::new();
    let player = spawn_player(&mut world, Vec3::new(0, 500, 0));
    let sensor = Entity(player.0 + 1);
    let jump = KeyboardInput { jump_just_pressed: true, ..KeyboardInput::idle() };
    run_frame(&mut world, &[], &jump);
    assert_eq!(world.get(player).unwrap().grounded, Some(Grounded(false)));
    run_frame(&mut world, &[CollisionEvent::Started(sensor, Entity(30))], &jump);
    assert_eq!(world.get(player).unwrap().grounded, Some(Grounded(false)));
    run_frame(&mut world, &[CollisionEvent::Started(sensor, Entity(30))], &KeyboardInput::idle());
    assert_eq!(world.get(player).unwrap().grounded, Some(Grounded(true)));
}

#[test]
fn candidates_stay_valid_and_highlights_consistent_over_frames() {
    let mut world = World::new();
    let player = spawn_player(&mut world, Vec3::new(0, 0, 0));
    let a = spawn_box(&mut world, Vec3::new(3000, 0, 0));
    let b = spawn_box(&mut world, Vec3::new(-3000, 0, 0));
    let confirm = KeyboardInput { confirm_just_pressed: true, ..KeyboardInput::idle() };
    let frames = vec![
        (vec![CollisionEvent::Started(player, a)], KeyboardInput::idle()),
        (vec![CollisionEvent::Started(b, player), CollisionEvent::Stopped(player, a)], KeyboardInput::idle()),
        (vec![CollisionEvent::Started(player, a)], KeyboardInput::idle()),
        (vec![CollisionEvent::Stopped(player, b)], confirm),
        (vec![CollisionEvent::Stopped(player, a)], confirm),
        (vec![CollisionEvent::Started(player, b)], confirm),
    ];
    for (events, input) in frames {
        run_frame(&mut world, &events, &input);
        assert!(candidates_are_valid(&world));
        if world.contains(a) {
            assert!(shows_the_right_material(&world, a));
        }
        if world.contains(b) {
            assert!(shows_the_right_material(&world, b));
        }
    }
    assert!(!world.contains(a));
    assert!(!world.contains(b));
}

#[test]
fn a_contested_confirm_leaves_a_stale_candidate() {
    let mut world = World::new();
    let first = spawn_player(&mut world, Vec3::new(0, 0, 0));
    let second = spawn_player(&mut world, Vec3::new(6000, 0, 0));
    let item = spawn_box(&mut world, Vec3::new(3000, 0, 0));
    let confirm = KeyboardInput { confirm_just_pressed: true, ..KeyboardInput::idle() };
    run_frame(
        &mut world,
        &[CollisionEvent::Started(first, item), CollisionEvent::Started(second, item)],
        &confirm,
    );
    assert!(!candidates_are_valid(&world));
    assert_eq!(world.get(second).unwrap().player.unwrap().entity_to_combine, Some(item));
    run_frame(&mut world, &[CollisionEvent::Stopped(second, item)], &confirm);
    assert!(!world.contains(item));
}

#[test]
fn poll_reads_the_bound_keys() {
    let mut keys = Input::<KeyCode>::default();
    assert_eq!(KeyboardInput::poll(&keys), KeyboardInput::idle());
    keys.press(KeyCode::Up);
    assert_eq!(KeyboardInput::poll(&keys), KeyboardInput { up: true, ..KeyboardInput::idle() });
    keys.press(KeyCode::Down);
    keys.press(KeyCode::Left);
    keys.press(KeyCode::Right);
    keys.release(KeyCode::Up);
    assert_eq!(
        KeyboardInput::poll(&keys),
        KeyboardInput { down: true, left: true, right: true, ..KeyboardInput::idle() }
    );
}

#[test]
fn poll_reports_jump_and_confirm_only_in_the_frame_of_the_press() {
    let mut keys = Input::<KeyCode>::default();
    keys.press(KeyCode::Space);
    assert_eq!(
        KeyboardInput::poll(&keys),
        KeyboardInput { jump_just_pressed: true, ..KeyboardInput::idle() }
    );
    keys.clear();
    keys.press(KeyCode::Space);
    assert!(keys.pressed(KeyCode::Space));
    assert_eq!(KeyboardInput::poll(&keys), KeyboardInput::idle());
    keys.press(KeyCode::A);
    assert_eq!(
        KeyboardInput::poll(&keys),
        KeyboardInput { confirm_just_pressed: true, ..KeyboardInput::idle() }
    );
    keys.clear();
    keys.release(KeyCode::Space);
    keys.press(KeyCode::Space);
    assert_eq!(
        KeyboardInput::poll(&keys),
        KeyboardInput { jump_just_pressed: true, ..KeyboardInput::idle() }
    );
}

#[test]
fn poll_ignores_other_keys() {
    let mut keys = Input::<KeyCode>::default();
    keys.press(KeyCode::W);
    keys.press(KeyCode::Return);
    keys.press(KeyCode::Escape);
    assert_eq!(KeyboardInput::poll(&keys), KeyboardInput::idle());
}

#[test]
fn a_held_jump_key_read_from_the_keyboard_jumps_once() {
    let mut world = World::new();
    let player = spawn_player(&mut world, Vec3::new(0, 500, 0));
    let sensor = Entity(player.0 + 1);
    let mut keys = Input::<KeyCode>::default();
    let mut jumps = 0;
    for frame in 0..5 {
        keys.clear();
        if frame == 0 {
            keys.press(KeyCode::Space);
        }
        run_frame(
            &mut world,
            &[CollisionEvent::Started(sensor, Entity(20))],
            &KeyboardInput::poll(&keys),
        );
        if world.get(player).unwrap().grounded == Some(Grounded(false)) {
            jumps += 1;
        }
    }
    assert_eq!(jumps, 1);
    assert_eq!(world.get(player).unwrap().grounded, Some(Grounded(true)));
}
