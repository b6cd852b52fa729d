use vstd::prelude::*;
use crate::assets::{Color, Mesh, StandardMaterial};
use crate::combine::CombinableObject;
use crate::events::{CollisionEvent, KeyboardInput};
use crate::math::Vec3;
use crate::world::{
    Collider, CollisionGroups, Components, Entity, Physics, Transform, Velocity, World, WorldView,
};

verus! {

/// State of a controllable agent.
#[derive(Clone, Copy, Debug, PartialEq, Eq, Structural)]
pub struct Player {
    /// The interactable currently in reach, if any.
    pub entity_to_combine: Option<Entity>,
    /// What kind of object the player has absorbed, if any.
    pub combined_with: Option<CombinableObject>,
}

impl Default for Player {
    fn default() -> (player: Player)
        ensures
            player == (Player { entity_to_combine: None, combined_with: None }),
    {
        Player { entity_to_combine: None, combined_with: None }
    }
}

/// Whether the owning player stands on a surface and may jump.
#[derive(Clone, Copy, Debug, PartialEq, Eq, Structural)]
pub struct Grounded(pub bool);

/// Edge length of a player's cube.
pub const PLAYER_SIZE: i32 = 1000;

/// Half the edge length of a player's cube.
pub const PLAYER_HALF_SIZE: i32 = 500;

/// Height of the foot sensor relative to the player's centre: the bottom
/// face of the cube.
pub const FOOT_SENSOR_HEIGHT: i32 = -500;

/// Radius of the foot sensor under a player.
pub const FOOT_SENSOR_RADIUS: i32 = 100;

/// Strength of gravity on a player: five times the usual one.
pub const PLAYER_GRAVITY_SCALE: i32 = 5000;

/// The collision groups of a player and of its foot sensor: they belong to
/// the first group and collide with the second.
pub open spec fn player_groups() -> CollisionGroups {
    CollisionGroups { memberships: 1, filters: 2 }
}

/// The components of a freshly spawned player at `position`, given the
/// handles of its material and mesh: a cube that forces move but do not
/// turn, under strong gravity, grounded and at rest.
pub open spec fn player_components(
    position: Vec3,
    material: crate::assets::MaterialHandle,
    mesh: crate::assets::MeshHandle,
) -> Components {
    Components {
        transform: Some(Transform { translation: position }),
        material: Some(material),
        mesh: Some(mesh),
        collider: Some(
            Collider::Cuboid {
                hx: PLAYER_HALF_SIZE,
                hy: PLAYER_HALF_SIZE,
                hz: PLAYER_HALF_SIZE,
            },
        ),
        velocity: Some(Velocity { linvel: Vec3 { x: 0, y: 0, z: 0 } }),
        player: Some(Player { entity_to_combine: None, combined_with: None }),
        grounded: Some(Grounded(true)),
        physics: Physics {
            dynamic: true,
            rotation_locked: true,
            gravity_scale: Some(PLAYER_GRAVITY_SCALE),
            groups: Some(player_groups()),
            ..Physics::spec_new()
        },
        ..Components::spec_new()
    }
}

/// The components of the foot sensor of `owner`: a small ball at the bottom
/// face of the owner's cube, positioned relative to the owner, that reports
/// what it touches.
pub open spec fn foot_sensor_components(owner: Entity) -> Components {
    Components {
        transform: Some(Transform { translation: Vec3 { x: 0, y: FOOT_SENSOR_HEIGHT, z: 0 } }),
        collider: Some(Collider::Ball { radius: FOOT_SENSOR_RADIUS }),
        ground_check: true,
        parent: Some(owner),
        physics: Physics {
            groups: Some(player_groups()),
            sensor: true,
            reports_collisions: true,
            ..Physics::spec_new()
        },
        ..Components::spec_new()
    }
}

/// The world after a player has been spawned at `position`: a blue
/// material and a cube mesh are stored, then the player and its foot sensor
/// are created, in this order.
pub open spec fn with_player(w: WorldView, position: Vec3) -> WorldView {
    let stocked = w.with_material(StandardMaterial { base_color: Color { r: 0, g: 0, b: 255 } })
        .with_mesh(Mesh::Cube { size: PLAYER_SIZE });
    let player = stocked.next_entity();
    stocked.spawned(player_components(position, w.next_material(), w.next_mesh())).spawned(
        foot_sensor_components(player),
    )
}

/// Spawns a player at `position`, grounded, at rest, with no candidate and
/// nothing absorbed, together with its foot sensor. Returns the player.
pub fn spawn_player(world: &mut World, position: Vec3) -> (player: Entity)
    ensures
        player == old(world)@.next_entity(),
        final(world)@ == with_player(old(world)@, position),
{
    let material = world.add_material(StandardMaterial { base_color: Color::blue() });
    let mesh = world.add_mesh(Mesh::Cube { size: PLAYER_SIZE });
    let half: i32 = PLAYER_HALF_SIZE;
    let groups = CollisionGroups { memberships: 1, filters: 2 };
    let body = Components {
        transform: Some(Transform { translation: position }),
        material: Some(material),
        mesh: Some(mesh),
        collider: Some(Collider::Cuboid { hx: half, hy: half, hz: half }),
        velocity: Some(Velocity { linvel: Vec3::zero() }),
        player: Some(Player::default()),
        grounded: Some(Grounded(true)),
        physics: Physics {
            dynamic: true,
            rotation_locked: true,
            gravity_scale: Some(PLAYER_GRAVITY_SCALE),
            groups: Some(groups),
            ..Physics::new()
        },
        ..Components::new()
    };
    let player = world.spawn_consistent(body);
    let sensor = Components {
        transform: Some(Transform { translation: Vec3::new(0, FOOT_SENSOR_HEIGHT, 0) }),
        collider: Some(Collider::Ball { radius: FOOT_SENSOR_RADIUS }),
        ground_check: true,
        parent: Some(player),
        physics: Physics {
            groups: Some(groups),
            sensor: true,
            reports_collisions: true,
            ..Physics::new()
        },
        ..Components::new()
    };
    world.spawn_consistent(sensor);
    player
}

/// The entity that a contact of `sensor` marks as grounded: the parent of
/// an existing foot sensor, where that parent exists and carries a grounded
/// flag.
pub open spec fn sensor_owner(w: WorldView, sensor: Entity) -> Option<Entity> {
    if w.get(sensor) is Some && w.get(sensor)->0.ground_check && w.get(sensor)->0.parent is Some
        && w.get(w.get(sensor)->0.parent->0) is Some && w.get(
        w.get(sensor)->0.parent->0,
    )->0.grounded is Some {
        w.get(sensor)->0.parent
    } else {
        None
    }
}

/// The world after `sensor` has touched something: its owner, if it has
/// one, is grounded.
pub open spec fn after_landing(w: WorldView, sensor: Entity) -> WorldView {
    match sensor_owner(w, sensor) {
        Some(owner) => w.with_entity(
            owner.0 as int,
            Some(Components { grounded: Some(Grounded(true)), ..w.get(owner)->0 }),
        ),
        None => w,
    }
}

/// The world after the grounded-state tracker has handled one event. Only
/// the start of a contact counts, and either side of it may be the sensor.
pub open spec fn after_ground_contact(w: WorldView, event: CollisionEvent) -> WorldView {
    match event {
        CollisionEvent::Started(a, b) => after_landing(after_landing(w, a), b),
        CollisionEvent::Stopped(_, _) => w,
    }
}

/// The world after the grounded-state tracker has handled `events` one by
/// one, in their order.
pub open spec fn after_ground_contacts(w: WorldView, events: Seq<CollisionEvent>) -> WorldView
    decreases events.len(),
{
    if events.len() == 0 {
        w
    } else {
        after_ground_contact(after_ground_contacts(w, events.drop_last()), events.last())
    }
}

/// Marks the owner of `sensor` as grounded, if it has one.
fn land(world: &mut World, sensor: Entity)
    ensures
        final(world)@ == after_landing(old(world)@, sensor),
{
    proof {
        use_type_invariant(&*world);
    }
    if let Some(s) = world.get(sensor) {
        if s.ground_check {
            if let Some(owner) = s.parent {
                if let Some(body) = world.get(owner) {
                    if body.grounded.is_some() {
                        world.replace(owner, Components { grounded: Some(Grounded(true)), ..body });
                    }
                }
            }
        }
    }
}

/// The grounded-state tracker. For every start of a contact in `events`,
/// in order, and for either entity of the pair that is a foot sensor: the
/// sensor's parent, if it exists and carries a grounded flag, is marked as
/// grounded. Ends of contacts are not looked at, and a sensor without such
/// a parent is passed over.
pub fn reset_is_grounded(world: &mut World, events: &[CollisionEvent])
    ensures
        final(world)@ == after_ground_contacts(old(world)@, events@),
{
    let mut k: usize = 0;
    while k < events.len()
        invariant
            k <= events.len(),
            world@ == after_ground_contacts(old(world)@, events@.take(k as int)),
        decreases events.len() - k,
    {
        let event = events[k];
        match event {
            CollisionEvent::Started(a, b) => {
                land(world, a);
                land(world, b);
            },
            CollisionEvent::Stopped(_, _) => {},
        }
        proof {
            assert(events@.take(k + 1).drop_last() == events@.take(k as int));
            assert(events@.take(k + 1).last() == events@[k as int]);
        }
        k = k + 1;
    }
    proof {
        assert(events@.take(events@.len() as int) == events@);
    }
}

/// Speed of a walking player.
pub const SPEED: i32 = 10_000;

/// Speed along each axis of a player that walks diagonally: `SPEED`
/// divided by the square root of two, rounded down.
pub const DIAGONAL_SPEED: i32 = 7_071;

/// Upward speed that a jump gives.
pub const JUMP_STRENGTH: i32 = 10_000;

/// Position on one axis that two opposite keys ask for: -1, 0 or 1.
pub open spec fn axis(negative: bool, positive: bool) -> int {
    (if positive { 1int } else { 0int }) - (if negative { 1int } else { 0int })
}

/// The speed along one axis of a player that is asked to walk in direction
/// `along` on this axis and `across` on the other one. A player that walks
/// along one axis only has the full speed on it; one that walks diagonally
/// has the diagonal speed on both.
pub open spec fn axis_speed(along: int, across: int) -> int {
    if along == 0 {
        0
    } else if across == 0 {
        along * SPEED
    } else {
        along * DIAGONAL_SPEED
    }
}

/// The velocity in the ground plane, as x and z, that the held keys ask
/// for: the sum of the unit vectors of the held direction keys, scaled to
/// the walking speed where it is not zero.
pub open spec fn walking_velocity(input: KeyboardInput) -> (int, int) {
    let dx = axis(input.left, input.right);
    let dz = axis(input.up, input.down);
    (axis_speed(dx, dz), axis_speed(dz, dx))
}

/// The walking velocity is the sum of the held directions, normalised and
/// scaled to the walking speed, in fixed point: it is zero where the
/// directions cancel, it points where they point, and otherwise its length
/// is the walking speed, rounded towards zero on each axis.
pub proof fn lemma_walking_velocity_is_scaled_direction(input: KeyboardInput)
    ensures
        ({
            let dx = axis(input.left, input.right);
            let dz = axis(input.up, input.down);
            let vx = walking_velocity(input).0;
            let vz = walking_velocity(input).1;
            let ax = if vx < 0 { -vx } else { vx };
            let az = if vz < 0 { -vz } else { vz };
            &&& -1 <= dx <= 1 && -1 <= dz <= 1
            &&& dx == 0 && dz == 0 ==> vx == 0 && vz == 0
            &&& vx * dz == vz * dx
            &&& vx * dx >= 0 && vz * dz >= 0
            &&& dx != 0 || dz != 0 ==> vx * vx + vz * vz <= SPEED * SPEED < (ax + 1) * (ax + 1) + (
                az + 1) * (az + 1)
            &&& vx == vx as i32 && vz == vz as i32
        }),
{
    let dx = axis(input.left, input.right);
    let dz = axis(input.up, input.down);
    assert(7_071 * 7_071 + 7_071 * 7_071 <= 10_000 * 10_000 < 7_072 * 7_072 + 7_072 * 7_072)
        by (nonlinear_arith);
    assert(10_000 * 10_000 < 10_001 * 10_001 + 1 * 1) by (nonlinear_arith);
    if dx == 0 {
    } else if dx == 1 {
    } else {
        assert(dx == -1);
    }
    if dz == 0 {
    } else if dz == 1 {
    } else {
        assert(dz == -1);
    }
}

/// An entity's components after the movement controller has seen them: a
/// player with a velocity gets the walking velocity in the ground plane and
/// keeps its vertical speed.
pub open spec fn moved(c: Components, input: KeyboardInput) -> Components {
    if c.player is Some && c.velocity is Some {
        Components {
            velocity: Some(
                Velocity {
                    linvel: Vec3 {
                        x: walking_velocity(input).0 as i32,
                        y: c.velocity->0.linvel.y,
                        z: walking_velocity(input).1 as i32,
                    },
                },
            ),
            ..c
        }
    } else {
        c
    }
}

/// The world after the movement controller has run.
pub open spec fn after_move(w: WorldView, input: KeyboardInput) -> WorldView {
    w.map_entities(|c: Components| moved(c, input))
}

/// Computes the walking velocity in the ground plane.
fn walking_velocity_of(input: &KeyboardInput) -> (v: (i32, i32))
    ensures
        v.0 == walking_velocity(*input).0,
        v.1 == walking_velocity(*input).1,
{
    let mut dx: i32 = 0;
    let mut dz: i32 = 0;
    if input.up {
        dz = dz - 1;
    }
    if input.down {
        dz = dz + 1;
    }
    if input.right {
        dx = dx + 1;
    }
    if input.left {
        dx = dx - 1;
    }
    let scale: i32 = if dx != 0 && dz != 0 {
        DIAGONAL_SPEED
    } else {
        SPEED
    };
    (dx * scale, dz * scale)
}

/// The movement controller. Every player that has a velocity gets, in the
/// ground plane, the velocity that the held direction keys ask for; its
/// vertical speed stays as it is. Opposite keys cancel, and with no
/// direction left the player stands still.
pub fn move_player(world: &mut World, keyboard_input: &KeyboardInput)
    ensures
        final(world)@ == after_move(old(world)@, *keyboard_input),
{
    let v = walking_velocity_of(keyboard_input);
    let n: usize = world.entity_count();
    let mut k: usize = 0;
    while k < n
        invariant
            k <= n,
            n == old(world)@.entities.len(),
            v.0 == walking_velocity(*keyboard_input).0,
            v.1 == walking_velocity(*keyboard_input).1,
            world@.entities.len() == n,
            world@.highlight == old(world)@.highlight,
            world@.materials == old(world)@.materials,
            world@.meshes == old(world)@.meshes,
            forall|j: int|
                0 <= j < k ==> world@.entities[j] == after_move(
                    old(world)@,
                    *keyboard_input,
                ).entities[j],
            forall|j: int| k <= j < n ==> world@.entities[j] == old(world)@.entities[j],
        decreases n - k,
    {
        proof {
            use_type_invariant(&*world);
        }
        if let Some(c) = world.get(Entity(k as u64)) {
            if c.player.is_some() {
                if let Some(velocity) = c.velocity {
                    let walking = Velocity {
                        linvel: Vec3 { x: v.0, y: velocity.linvel.y, z: v.1 },
                    };
                    world.replace(Entity(k as u64), Components { velocity: Some(walking), ..c });
                }
            }
        }
        k = k + 1;
    }
    proof {
        assert(world@.entities =~= after_move(old(world)@, *keyboard_input).entities);
    }
}

/// Whether an entity jumps: the jump key went down in this frame, and the
/// entity is a player with a velocity that is grounded.
pub open spec fn jumps(c: Components, jump_just_pressed: bool) -> bool {
    jump_just_pressed && c.player is Some && c.velocity is Some && c.grounded == Some(
        Grounded(true),
    )
}

/// An entity's components after the jump action has seen them: an entity
/// that jumps is no longer grounded and moves upwards with the jump
/// strength; its velocity in the ground plane stays as it is.
pub open spec fn jumped(c: Components, jump_just_pressed: bool) -> Components {
    if jumps(c, jump_just_pressed) {
        Components {
            grounded: Some(Grounded(false)),
            velocity: Some(
                Velocity {
                    linvel: Vec3 {
                        x: c.velocity->0.linvel.x,
                        y: JUMP_STRENGTH,
                        z: c.velocity->0.linvel.z,
                    },
                },
            ),
            ..c
        }
    } else {
        c
    }
}

/// The world after the jump action has run.
pub open spec fn after_jump(w: WorldView, jump_just_pressed: bool) -> WorldView {
    w.map_entities(|c: Components| jumped(c, jump_just_pressed))
}

/// The jump action. In the frame in which the jump key goes down, every
/// grounded player that has a velocity leaves the ground: it is no longer
/// grounded and gets the jump strength as its vertical speed. In every
/// other frame, and for a player that is not grounded, nothing changes:
/// holding the key does not jump again.
pub fn jump_player(world: &mut World, keyboard_input: &KeyboardInput)
    ensures
        final(world)@ == after_jump(old(world)@, keyboard_input.jump_just_pressed),
{
    let pressed = keyboard_input.jump_just_pressed;
    let n: usize = world.entity_count();
    let mut k: usize = 0;
    while k < n
        invariant
            k <= n,
            n == old(world)@.entities.len(),
            pressed == keyboard_input.jump_just_pressed,
            world@.entities.len() == n,
            world@.highlight == old(world)@.highlight,
            world@.materials == old(world)@.materials,
            world@.meshes == old(world)@.meshes,
            forall|j: int|
                0 <= j < k ==> world@.entities[j] == after_jump(old(world)@, pressed).entities[j],
            forall|j: int| k <= j < n ==> world@.entities[j] == old(world)@.entities[j],
        decreases n - k,
    {
        proof {
            use_type_invariant(&*world);
        }
        if pressed {
            if let Some(c) = world.get(Entity(k as u64)) {
                if c.player.is_some() {
                    if let (Some(velocity), Some(Grounded(true))) = (c.velocity, c.grounded) {
                        let leaving = Velocity {
                            linvel: Vec3 {
                                x: velocity.linvel.x,
                                y: JUMP_STRENGTH,
                                z: velocity.linvel.z,
                            },
                        };
                        world.replace(
                            Entity(k as u64),
                            Components {
                                grounded: Some(Grounded(false)),
                                velocity: Some(leaving),
                                ..c
                            },
                        );
                    }
                }
            }
        }
        k = k + 1;
    }
    proof {
        assert(world@.entities =~= after_jump(old(world)@, pressed).entities);
    }
}

} // verus!
