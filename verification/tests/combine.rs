use combine_sim::assets::{Color, MaterialHandle, MeshHandle, StandardMaterial};
use combine_sim::combine::{
    combine_player, highlight_combinable_entity, spawn_box, Combinable, CombinableObject,
};
use combine_sim::events::{CollisionEvent, KeyboardInput};
use combine_sim::math::Vec3;
use combine_sim::player::{spawn_player, Player};
use combine_sim::world::{Collider, Components, Entity, Physics, Transform, World};

fn confirm() -> KeyboardInput {
    KeyboardInput { confirm_just_pressed: true, ..KeyboardInput::idle() }
}

fn candidate(world: &World, player: Entity) -> Option<Entity> {
    world.get(player).unwrap().player.unwrap().entity_to_combine
}

fn highlighted(world: &World, entity: Entity) -> bool {
    world.get(entity).unwrap().combinable.unwrap().highlighted
}

#[test]
fn spawn_box_creates_an_unhighlighted_interactable() {
    let mut world = World::new();
    let item = spawn_box(&mut world, Vec3::new(3000, 1000, -3000));
    assert_eq!(item, Entity(0));
    assert_eq!(world.entity_count(), 1);
    assert_eq!(
        world.get(item),
        Some(Components {
            transform: Some(Transform { translation: Vec3::new(3000, 1000, -3000) }),
            material: Some(MaterialHandle(1)),
            mesh: Some(MeshHandle(0)),
            collider: Some(Collider::Cuboid { hx: 1000, hy: 1000, hz: 1000 }),
            combinable: Some(Combinable { highlighted: false, original_material: MaterialHandle(1) }),
            physics: Physics { reports_collisions: true, ..Physics::new() },
            ..Components::new()
        })
    );
    assert_eq!(
        world.material(MaterialHandle(1)),
        Some(StandardMaterial { base_color: Color::pink() })
    );
    assert_eq!(world.get(item).unwrap().combinable.unwrap().category(), CombinableObject::Box);
}

#[test]
fn every_box_has_a_material_of_its_own() {
    let mut world = World::new();
    let a = spawn_box(&mut world, Vec3::new(0, 0, 0));
    let b = spawn_box(&mut world, Vec3::new(1000, 0, 0));
    assert_ne!(world.get(a).unwrap().material, world.get(b).unwrap().material);
}

#[test]
fn begin_contact_highlights_and_sets_the_candidate() {
    let mut world = World::new();
    let player = spawn_player(&mut world, Vec3::new(0, 0, 0));
    let item = spawn_box(&mut world, Vec3::new(3000, 0, 0));
    highlight_combinable_entity(&mut world, &[CollisionEvent::Started(player, item)]);
    assert!(highlighted(&world, item));
    assert_eq!(world.get(item).unwrap().material, Some(world.highlight_material()));
    assert_eq!(candidate(&world, player), Some(item));
}

#[test]
fn confirm_absorbs_the_candidate() {
    let mut world = World::new();
    let player = spawn_player(&mut world, Vec3::new(0, 0, 0));
    let item = spawn_box(&mut world, Vec3::new(3000, 0, 0));
    let before = world.get(item).unwrap();
    highlight_combinable_entity(&mut world, &[CollisionEvent::Started(player, item)]);
    let removed = combine_player(&mut world, &confirm());
    assert_eq!(removed, vec![item]);
    assert!(!world.contains(item));
    assert_eq!(world.get(item), None);
    let after = world.get(player).unwrap();
    assert_eq!(
        after.player,
        Some(Player { entity_to_combine: None, combined_with: Some(CombinableObject::Box) })
    );
    assert_eq!(after.transform, Some(Transform { translation: Vec3::new(3000, 0, 0) }));
    assert_eq!(after.mesh, before.mesh);
    assert_eq!(after.collider, Some(Collider::Cuboid { hx: 1000, hy: 1000, hz: 1000 }));
}

#[test]
fn absorbing_derives_a_new_material_from_the_candidates_own() {
    let mut world = World::new();
    let player = spawn_player(&mut world, Vec3::new(0, 0, 0));
    let item = spawn_box(&mut world, Vec3::new(3000, 0, 0));
    highlight_combinable_entity(&mut world, &[CollisionEvent::Started(player, item)]);
    combine_player(&mut world, &confirm());
    let material = world.get(player).unwrap().material.unwrap();
    assert_eq!(material, MaterialHandle(3));
    assert_eq!(
        world.material(material),
        Some(StandardMaterial { base_color: Color { r: 255, g: 20, b: 255 } })
    );
}

#[test]
fn absorbing_keeps_velocity_and_grounded_flag() {
    let mut world = World::new();
    let player = spawn_player(&mut world, Vec3::new(0, 0, 0));
    let item = spawn_box(&mut world, Vec3::new(3000, 0, 0));
    let before = world.get(player).unwrap();
    highlight_combinable_entity(&mut world, &[CollisionEvent::Started(player, item)]);
    combine_player(&mut world, &confirm());
    let after = world.get(player).unwrap();
    assert_eq!(after.velocity, before.velocity);
    assert_eq!(after.grounded, before.grounded);
    assert_eq!(after.physics, before.physics);
    assert_eq!(after.combinable, None);
}

#[test]
fn last_begin_wins_the_candidate_and_both_are_highlighted() {
    let mut world = World::new();
    let player = spawn_player(&mut world, Vec3::new(0, 0, 0));
    let a = spawn_box(&mut world, Vec3::new(3000, 0, 0));
    let b = spawn_box(&mut world, Vec3::new(-3000, 0, 0));
    highlight_combinable_entity(
        &mut world,
        &[CollisionEvent::Started(player, a), CollisionEvent::Started(player, b)],
    );
    assert_eq!(candidate(&world, player), Some(b));
    assert!(highlighted(&world, a));
    assert!(highlighted(&world, b));
}

#[test]
fn the_pair_of_an_event_is_unordered() {
    let mut world = World::new();
    let player = spawn_player(&mut world, Vec3::new(0, 0, 0));
    let item = spawn_box(&mut world, Vec3::new(3000, 0, 0));
    highlight_combinable_entity(&mut world, &[CollisionEvent::Started(item, player)]);
    assert!(highlighted(&world, item));
    assert_eq!(candidate(&world, player), Some(item));
    highlight_combinable_entity(&mut world, &[CollisionEvent::Stopped(item, player)]);
    assert!(!highlighted(&world, item));
    assert_eq!(candidate(&world, player), None);
}

#[test]
fn end_contact_reverts_material_and_clears_the_candidate() {
    let mut world = World::new();
    let player = spawn_player(&mut world, Vec3::new(0, 0, 0));
    let item = spawn_box(&mut world, Vec3::new(3000, 0, 0));
    let own = world.get(item).unwrap().material;
    highlight_combinable_entity(
        &mut world,
        &[CollisionEvent::Started(player, item), CollisionEvent::Stopped(player, item)],
    );
    assert!(!highlighted(&world, item));
    assert_eq!(world.get(item).unwrap().material, own);
    assert_eq!(candidate(&world, player), None);
}

#[test]
fn events_of_one_pair_are_applied_in_their_order() {
    let mut world = World::new();
    let player = spawn_player(&mut world, Vec3::new(0, 0, 0));
    let item = spawn_box(&mut world, Vec3::new(3000, 0, 0));
    highlight_combinable_entity(
        &mut world,
        &[
            CollisionEvent::Started(player, item),
            CollisionEvent::Stopped(player, item),
            CollisionEvent::Started(player, item),
        ],
    );
    assert!(highlighted(&world, item));
    assert_eq!(candidate(&world, player), Some(item));
    highlight_combinable_entity(
        &mut world,
        &[CollisionEvent::Stopped(player, item), CollisionEvent::Started(player, item), CollisionEvent::Stopped(player, item)],
    );
    assert!(!highlighted(&world, item));
    assert_eq!(candidate(&world, player), None);
}

#[test]
fn end_contact_leaves_a_candidate_that_points_elsewhere() {
    let mut world = World::new();
    let player = spawn_player(&mut world, Vec3::new(0, 0, 0));
    let a = spawn_box(&mut world, Vec3::new(3000, 0, 0));
    let b = spawn_box(&mut world, Vec3::new(-3000, 0, 0));
    highlight_combinable_entity(
        &mut world,
        &[
            CollisionEvent::Started(player, a),
            CollisionEvent::Started(player, b),
            CollisionEvent::Stopped(player, a),
        ],
    );
    assert!(!highlighted(&world, a));
    assert!(highlighted(&world, b));
    assert_eq!(candidate(&world, player), Some(b));
}

#[test]
fn end_contact_reverts_even_when_the_player_is_gone() {
    let mut world = World::new();
    let player = spawn_player(&mut world, Vec3::new(0, 0, 0));
    let item = spawn_box(&mut world, Vec3::new(3000, 0, 0));
    let own = world.get(item).unwrap().material;
    highlight_combinable_entity(&mut world, &[CollisionEvent::Started(player, item)]);
    world.despawn(player);
    highlight_combinable_entity(&mut world, &[CollisionEvent::Stopped(player, item)]);
    assert!(!highlighted(&world, item));
    assert_eq!(world.get(item).unwrap().material, own);
}

#[test]
fn the_end_of_a_contact_between_two_interactables_changes_nothing() {
    let mut world = World::new();
    let player = spawn_player(&mut world, Vec3::new(0, 0, 0));
    let a = spawn_box(&mut world, Vec3::new(3000, 0, 0));
    let b = spawn_box(&mut world, Vec3::new(5000, 0, 0));
    let ground = world.spawn(Components::new()).unwrap();
    highlight_combinable_entity(
        &mut world,
        &[CollisionEvent::Started(player, a), CollisionEvent::Started(player, b)],
    );
    highlight_combinable_entity(
        &mut world,
        &[
            CollisionEvent::Stopped(a, b),
            CollisionEvent::Stopped(b, a),
            CollisionEvent::Stopped(ground, a),
            CollisionEvent::Stopped(b, ground),
        ],
    );
    assert!(highlighted(&world, a));
    assert!(highlighted(&world, b));
    assert_eq!(candidate(&world, player), Some(b));
}

#[test]
fn begin_contact_needs_a_player() {
    let mut world = World::new();
    let a = spawn_box(&mut world, Vec3::new(3000, 0, 0));
    let b = spawn_box(&mut world, Vec3::new(-3000, 0, 0));
    let before_a = world.get(a);
    let before_b = world.get(b);
    highlight_combinable_entity(
        &mut world,
        &[CollisionEvent::Started(a, b), CollisionEvent::Started(a, Entity(40))],
    );
    assert_eq!(world.get(a), before_a);
    assert_eq!(world.get(b), before_b);
}

#[test]
fn events_between_other_entities_change_nothing() {
    let mut world = World::new();
    let player = spawn_player(&mut world, Vec3::new(0, 0, 0));
    let sensor = Entity(player.0 + 1);
    let other = spawn_player(&mut world, Vec3::new(9000, 0, 0));
    let before_player = world.get(player);
    let before_other = world.get(other);
    highlight_combinable_entity(
        &mut world,
        &[
            CollisionEvent::Started(player, other),
            CollisionEvent::Started(sensor, player),
            CollisionEvent::Stopped(player, other),
            CollisionEvent::Stopped(Entity(50), Entity(51)),
        ],
    );
    assert_eq!(world.get(player), before_player);
    assert_eq!(world.get(other), before_other);
}

#[test]
fn an_interactable_without_material_is_passed_over() {
    let mut world = World::new();
    let player = spawn_player(&mut world, Vec3::new(0, 0, 0));
    let own = world.add_material(StandardMaterial { base_color: Color::pink() });
    let bare = world
        .spawn(Components {
            combinable: Some(Combinable { highlighted: false, original_material: own }),
            ..Components::new()
        })
        .unwrap();
    highlight_combinable_entity(&mut world, &[CollisionEvent::Started(player, bare)]);
    assert!(!highlighted(&world, bare));
    assert_eq!(candidate(&world, player), None);
}

#[test]
fn highlighting_twice_is_the_same_as_once() {
    let mut world = World::new();
    let player = spawn_player(&mut world, Vec3::new(0, 0, 0));
    let item = spawn_box(&mut world, Vec3::new(3000, 0, 0));
    highlight_combinable_entity(&mut world, &[CollisionEvent::Started(player, item)]);
    let once = world.get(item);
    highlight_combinable_entity(&mut world, &[CollisionEvent::Started(player, item)]);
    assert_eq!(world.get(item), once);
}

#[test]
fn without_confirm_nothing_is_absorbed() {
    let mut world = World::new();
    let player = spawn_player(&mut world, Vec3::new(0, 0, 0));
    let item = spawn_box(&mut world, Vec3::new(3000, 0, 0));
    highlight_combinable_entity(&mut world, &[CollisionEvent::Started(player, item)]);
    let before_player = world.get(player);
    let before_item = world.get(item);
    let removed = combine_player(&mut world, &KeyboardInput::idle());
    assert_eq!(removed, vec![]);
    assert_eq!(world.get(player), before_player);
    assert_eq!(world.get(item), before_item);
}

#[test]
fn confirm_without_candidate_does_nothing() {
    let mut world = World::new();
    let player = spawn_player(&mut world, Vec3::new(0, 0, 0));
    let item = spawn_box(&mut world, Vec3::new(3000, 0, 0));
    let before = world.get(player);
    let removed = combine_player(&mut world, &confirm());
    assert_eq!(removed, vec![]);
    assert_eq!(world.get(player), before);
    assert!(world.contains(item));
}

#[test]
fn a_candidate_that_is_gone_is_silently_ignored() {
    let mut world = World::new();
    let player = spawn_player(&mut world, Vec3::new(0, 0, 0));
    let item = spawn_box(&mut world, Vec3::new(3000, 0, 0));
    highlight_combinable_entity(&mut world, &[CollisionEvent::Started(player, item)]);
    world.despawn(item);
    let before = world.get(player);
    let removed = combine_player(&mut world, &confirm());
    assert_eq!(removed, vec![]);
    assert_eq!(world.get(player), before);
    assert_eq!(candidate(&world, player), Some(item));
}

#[test]
fn a_candidate_without_mesh_is_not_absorbed() {
    let mut world = World::new();
    let player = spawn_player(&mut world, Vec3::new(0, 0, 0));
    let own = world.add_material(StandardMaterial { base_color: Color::pink() });
    let flat = world
        .spawn(Components {
            transform: Some(Transform { translation: Vec3::new(1, 2, 3) }),
            material: Some(own),
            collider: Some(Collider::Ball { radius: 10 }),
            combinable: Some(Combinable { highlighted: false, original_material: own }),
            ..Components::new()
        })
        .unwrap();
    highlight_combinable_entity(&mut world, &[CollisionEvent::Started(player, flat)]);
    assert_eq!(candidate(&world, player), Some(flat));
    let removed = combine_player(&mut world, &confirm());
    assert_eq!(removed, vec![]);
    assert!(world.contains(flat));
    assert_eq!(candidate(&world, player), Some(flat));
}

#[test]
fn a_player_without_collider_does_not_absorb() {
    let mut world = World::new();
    let item = spawn_box(&mut world, Vec3::new(3000, 0, 0));
    let ghost = world
        .spawn(Components {
            transform: Some(Transform { translation: Vec3::zero() }),
            material: Some(MaterialHandle(0)),
            mesh: Some(MeshHandle(0)),
            player: Some(Player { entity_to_combine: Some(item), combined_with: None }),
            ..Components::new()
        })
        .unwrap();
    let removed = combine_player(&mut world, &confirm());
    assert_eq!(removed, vec![]);
    assert!(world.contains(item));
    assert_eq!(candidate(&world, ghost), Some(item));
}

#[test]
fn of_two_players_with_one_candidate_the_first_absorbs_it() {
    let mut world = World::new();
    let first = spawn_player(&mut world, Vec3::new(0, 0, 0));
    let second = spawn_player(&mut world, Vec3::new(6000, 0, 0));
    let item = spawn_box(&mut world, Vec3::new(3000, 0, 0));
    highlight_combinable_entity(
        &mut world,
        &[CollisionEvent::Started(second, item), CollisionEvent::Started(first, item)],
    );
    assert_eq!(candidate(&world, first), Some(item));
    assert_eq!(candidate(&world, second), Some(item));
    let removed = combine_player(&mut world, &confirm());
    assert_eq!(removed, vec![item]);
    assert_eq!(
        world.get(first).unwrap().player,
        Some(Player { entity_to_combine: None, combined_with: Some(CombinableObject::Box) })
    );
    assert_eq!(
        world.get(second).unwrap().player,
        Some(Player { entity_to_combine: Some(item), combined_with: None })
    );
    assert_eq!(
        world.get(second).unwrap().transform,
        Some(Transform { translation: Vec3::new(6000, 0, 0) })
    );
    let again = combine_player(&mut world, &confirm());
    assert_eq!(again, vec![]);
}

#[test]
fn two_players_absorb_their_own_candidates_in_one_confirm() {
    let mut world = World::new();
    let first = spawn_player(&mut world, Vec3::new(0, 0, 0));
    let second = spawn_player(&mut world, Vec3::new(6000, 0, 0));
    let a = spawn_box(&mut world, Vec3::new(1000, 0, 0));
    let b = spawn_box(&mut world, Vec3::new(7000, 0, 0));
    highlight_combinable_entity(
        &mut world,
        &[CollisionEvent::Started(second, b), CollisionEvent::Started(first, a)],
    );
    let removed = combine_player(&mut world, &confirm());
    assert_eq!(removed, vec![a, b]);
    assert_eq!(
        world.get(first).unwrap().transform,
        Some(Transform { translation: Vec3::new(1000, 0, 0) })
    );
    assert_eq!(
        world.get(second).unwrap().transform,
        Some(Transform { translation: Vec3::new(7000, 0, 0) })
    );
    assert_ne!(world.get(first).unwrap().material, world.get(second).unwrap().material);
}

#[test]
fn a_combined_player_cannot_be_picked_up() {
    let mut world = World::new();
    let first = spawn_player(&mut world, Vec3::new(0, 0, 0));
    let second = spawn_player(&mut world, Vec3::new(6000, 0, 0));
    let item = spawn_box(&mut world, Vec3::new(3000, 0, 0));
    highlight_combinable_entity(&mut world, &[CollisionEvent::Started(first, item)]);
    combine_player(&mut world, &confirm());
    let combined = world.get(first);
    highlight_combinable_entity(&mut world, &[CollisionEvent::Started(second, first)]);
    assert_eq!(world.get(first), combined);
    assert_eq!(candidate(&world, second), None);
}
