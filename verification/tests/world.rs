use combine_sim::assets::{Color, MaterialHandle, Mesh, MeshHandle, StandardMaterial};
use combine_sim::combine::Combinable;
use combine_sim::math::Vec3;
use combine_sim::player::Player;
use combine_sim::world::{Components, Entity, Physics, Transform, World};

#[test]
fn new_world_holds_only_the_highlight_material() {
    let world = World::new();
    assert_eq!(world.entity_count(), 0);
    assert_eq!(world.highlight_material(), MaterialHandle(0));
    assert_eq!(
        world.material(MaterialHandle(0)),
        Some(StandardMaterial { base_color: Color::new(255, 255, 0) })
    );
    assert_eq!(world.material(MaterialHandle(1)), None);
    assert_eq!(world.mesh(MeshHandle(0)), None);
}

#[test]
fn spawn_hands_out_increasing_identifiers() {
    let mut world = World::new();
    let a = world.spawn(Components::new());
    let b = world.spawn(Components::new());
    assert_eq!(a, Some(Entity(0)));
    assert_eq!(b, Some(Entity(1)));
    assert_eq!(world.entity_count(), 2);
    assert!(world.contains(Entity(0)));
    assert!(world.contains(Entity(1)));
    assert!(!world.contains(Entity(2)));
}

#[test]
fn spawn_keeps_the_components_it_is_given() {
    let mut world = World::new();
    let components = Components {
        transform: Some(Transform { translation: Vec3::new(1, -2, 3) }),
        ground_check: true,
        parent: Some(Entity(7)),
        ..Components::new()
    };
    let id = world.spawn(components).unwrap();
    assert_eq!(world.get(id), Some(components));
}

#[test]
fn spawn_refuses_an_entity_that_is_player_and_interactable() {
    let mut world = World::new();
    let both = Components {
        player: Some(Player::default()),
        combinable: Some(Combinable { highlighted: false, original_material: MaterialHandle(0) }),
        ..Components::new()
    };
    assert!(!world.admits(&both));
    assert_eq!(world.spawn(both), None);
    assert_eq!(world.entity_count(), 0);
}

#[test]
fn spawn_refuses_a_highlight_flag_without_the_highlight_material() {
    let mut world = World::new();
    let own = world.add_material(StandardMaterial { base_color: Color::pink() });
    let flagged_only = Components {
        material: Some(own),
        combinable: Some(Combinable { highlighted: true, original_material: own }),
        ..Components::new()
    };
    assert_eq!(world.spawn(flagged_only), None);
    let shown_only = Components {
        material: Some(world.highlight_material()),
        combinable: Some(Combinable { highlighted: false, original_material: own }),
        ..Components::new()
    };
    assert_eq!(world.spawn(shown_only), None);
    let both = Components {
        material: Some(world.highlight_material()),
        combinable: Some(Combinable { highlighted: true, original_material: own }),
        ..Components::new()
    };
    assert_eq!(world.spawn(both), Some(Entity(0)));
}

#[test]
fn spawn_refuses_an_interactable_whose_own_material_is_not_stored() {
    let mut world = World::new();
    let missing = Components {
        combinable: Some(Combinable { highlighted: false, original_material: MaterialHandle(5) }),
        ..Components::new()
    };
    assert_eq!(world.spawn(missing), None);
}

#[test]
fn despawn_removes_the_entity_and_keeps_the_other_identifiers() {
    let mut world = World::new();
    let a = world.spawn(Components::new()).unwrap();
    let b = world.spawn(Components { ground_check: true, ..Components::new() }).unwrap();
    assert!(world.despawn(a));
    assert!(!world.contains(a));
    assert_eq!(world.get(a), None);
    assert!(world.contains(b));
    assert_eq!(world.entity_count(), 2);
    assert!(!world.despawn(a));
    assert!(!world.despawn(Entity(99)));
    let c = world.spawn(Components::new()).unwrap();
    assert_eq!(c, Entity(2));
}

#[test]
fn replace_changes_an_existing_entity_only() {
    let mut world = World::new();
    let a = world.spawn(Components::new()).unwrap();
    let moved = Components {
        transform: Some(Transform { translation: Vec3::new(5, 6, 7) }),
        ..Components::new()
    };
    assert!(world.replace(a, moved));
    assert_eq!(world.get(a), Some(moved));
    assert!(!world.replace(Entity(3), moved));
    world.despawn(a);
    assert!(!world.replace(a, moved));
    assert_eq!(world.get(a), None);
}

#[test]
fn replace_refuses_components_that_do_not_fit() {
    let mut world = World::new();
    let a = world.spawn(Components::new()).unwrap();
    let both = Components {
        player: Some(Player::default()),
        combinable: Some(Combinable { highlighted: false, original_material: MaterialHandle(0) }),
        ..Components::new()
    };
    assert!(!world.replace(a, both));
    assert_eq!(world.get(a), Some(Components::new()));
}

#[test]
fn stores_hand_out_handles_in_order() {
    let mut world = World::new();
    let pink = world.add_material(StandardMaterial { base_color: Color::pink() });
    let blue = world.add_material(StandardMaterial { base_color: Color::blue() });
    assert_eq!(pink, MaterialHandle(1));
    assert_eq!(blue, MaterialHandle(2));
    assert_eq!(world.material(pink), Some(StandardMaterial { base_color: Color::new(255, 20, 147) }));
    assert_eq!(world.material(blue), Some(StandardMaterial { base_color: Color::new(0, 0, 255) }));
    let cube = world.add_mesh(Mesh::Cube { size: 1000 });
    let plane = world.add_mesh(Mesh::Plane { size: 100_000 });
    assert_eq!(cube, MeshHandle(0));
    assert_eq!(plane, MeshHandle(1));
    assert_eq!(world.mesh(cube), Some(Mesh::Cube { size: 1000 }));
    assert_eq!(world.mesh(plane), Some(Mesh::Plane { size: 100_000 }));
    assert_eq!(world.mesh(MeshHandle(2)), None);
}

#[test]
fn new_components_are_empty() {
    let empty = Components::new();
    assert_eq!(empty.transform, None);
    assert_eq!(empty.material, None);
    assert_eq!(empty.mesh, None);
    assert_eq!(empty.collider, None);
    assert_eq!(empty.velocity, None);
    assert_eq!(empty.player, None);
    assert_eq!(empty.combinable, None);
    assert_eq!(empty.grounded, None);
    assert!(!empty.ground_check);
    assert_eq!(empty.parent, None);
    assert_eq!(
        empty.physics,
        Physics {
            dynamic: false,
            rotation_locked: false,
            gravity_scale: None,
            groups: None,
            sensor: false,
            reports_collisions: false,
        }
    );
}

#[test]
fn colours_have_their_exact_channels() {
    assert_eq!(Color::yellow(), Color { r: 255, g: 255, b: 0 });
    assert_eq!(Color::blue(), Color { r: 0, g: 0, b: 255 });
    assert_eq!(Color::pink(), Color { r: 255, g: 20, b: 147 });
    assert_eq!(Color::new(1, 2, 3).combined(), Color { r: 1, g: 2, b: 255 });
    assert_eq!(Vec3::zero(), Vec3 { x: 0, y: 0, z: 0 });
}
