use vstd::prelude::*;
use crate::assets::{Color, MaterialHandle, Mesh, MeshHandle, StandardMaterial};
use crate::combine::Combinable;
use crate::math::Vec3;
use crate::player::{Grounded, Player};

verus! {

/// Identifier of an entity in the component store.
///
/// Identifiers are handed out in increasing order and never reused, so a
/// stored identifier stays meaningful after its entity is gone: it then
/// simply resolves to nothing.
#[derive(Clone, Copy, Debug, PartialEq, Eq, Structural, Hash)]
pub struct Entity(pub u64);

/// Where an entity is.
#[derive(Clone, Copy, Debug, PartialEq, Eq, Structural)]
pub struct Transform {
    pub translation: Vec3,
}

/// Collision geometry; all extents are fixed-point lengths.
#[derive(Clone, Copy, Debug, PartialEq, Eq, Structural)]
pub enum Collider {
    Cuboid { hx: i32, hy: i32, hz: i32 },
    Ball { radius: i32 },
}

/// The groups that a collider belongs to and those it collides with, as
/// bit masks.
#[derive(Clone, Copy, Debug, PartialEq, Eq, Structural)]
pub struct CollisionGroups {
    pub memberships: u32,
    pub filters: u32,
}

/// How the physics step is to treat an entity.
#[derive(Clone, Copy, Debug, PartialEq, Eq, Structural)]
pub struct Physics {
    /// Moved by forces; otherwise the entity stays where it is put.
    pub dynamic: bool,
    /// Kept from turning.
    pub rotation_locked: bool,
    /// Strength of gravity on the entity, where it is not the usual one, as
    /// a fixed-point factor.
    pub gravity_scale: Option<i32>,
    /// Restricts what the collider collides with.
    pub groups: Option<CollisionGroups>,
    /// The collider only reports what it overlaps and exerts no force.
    pub sensor: bool,
    /// Contacts of the collider are reported as collision events.
    pub reports_collisions: bool,
}

/// Linear velocity of a rigid body.
#[derive(Clone, Copy, Debug, PartialEq, Eq, Structural)]
pub struct Velocity {
    pub linvel: Vec3,
}

/// Everything that can be attached to one entity.
#[derive(Clone, Copy, Debug, PartialEq, Eq, Structural)]
pub struct Components {
    pub transform: Option<Transform>,
    pub material: Option<MaterialHandle>,
    pub mesh: Option<MeshHandle>,
    pub collider: Option<Collider>,
    pub velocity: Option<Velocity>,
    pub player: Option<Player>,
    pub combinable: Option<Combinable>,
    pub grounded: Option<Grounded>,
    /// Marks a foot sensor.
    pub ground_check: bool,
    pub parent: Option<Entity>,
    pub physics: Physics,
}

impl Physics {
    /// A collider that stays in place, collides with everything and
    /// reports nothing.
    pub open spec fn spec_new() -> Physics {
        Physics {
            dynamic: false,
            rotation_locked: false,
            gravity_scale: None,
            groups: None,
            sensor: false,
            reports_collisions: false,
        }
    }

    /// A collider that stays in place, collides with everything and
    /// reports nothing.
    #[verifier::when_used_as_spec(spec_new)]
    pub fn new() -> (physics: Physics)
        ensures
            physics == Physics::spec_new(),
    {
        Physics {
            dynamic: false,
            rotation_locked: false,
            gravity_scale: None,
            groups: None,
            sensor: false,
            reports_collisions: false,
        }
    }
}

impl Components {
    /// An entity without any component.
    pub open spec fn spec_new() -> Components {
        Components {
            transform: None,
            material: None,
            mesh: None,
            collider: None,
            velocity: None,
            player: None,
            combinable: None,
            grounded: None,
            ground_check: false,
            parent: None,
            physics: Physics::spec_new(),
        }
    }

    /// An entity without any component.
    #[verifier::when_used_as_spec(spec_new)]
    pub fn new() -> (c: Components)
        ensures
            c == Components::spec_new(),
    {
        Components {
            transform: None,
            material: None,
            mesh: None,
            collider: None,
            velocity: None,
            player: None,
            combinable: None,
            grounded: None,
            ground_check: false,
            parent: None,
            physics: Physics::new(),
        }
    }

    /// The material an interactable must show: the highlight material while
    /// it is highlighted, its own material otherwise.
    pub open spec fn shown_material(combinable: Combinable, highlight: MaterialHandle) -> MaterialHandle {
        if combinable.highlighted {
            highlight
        } else {
            combinable.original_material
        }
    }
}

/// The mathematical content of a `World`.
pub struct WorldView {
    /// One slot per identifier ever handed out; `None` once despawned.
    pub entities: Seq<Option<Components>>,
    /// The shared highlight material.
    pub highlight: MaterialHandle,
    /// The material store, indexed by handle.
    pub materials: Seq<StandardMaterial>,
    /// The mesh store, indexed by handle.
    pub meshes: Seq<Mesh>,
}

impl WorldView {
    /// Whether `entity` exists.
    pub open spec fn alive(self, entity: Entity) -> bool {
        entity.0 < self.entities.len() && self.entities[entity.0 as int] is Some
    }

    /// The components of `entity`, if it exists.
    pub open spec fn get(self, entity: Entity) -> Option<Components> {
        if self.alive(entity) {
            self.entities[entity.0 as int]
        } else {
            None
        }
    }

    /// Whether `entity` exists and is a player.
    pub open spec fn is_player(self, entity: Entity) -> bool {
        self.get(entity) matches Some(c) && c.player is Some
    }

    /// Whether `entity` exists and is an interactable that has a material
    /// to show.
    pub open spec fn is_interactable(self, entity: Entity) -> bool {
        self.get(entity) matches Some(c) && c.combinable is Some && c.material is Some
    }

    /// The material that `handle` refers to, if any.
    pub open spec fn material(self, handle: MaterialHandle) -> Option<StandardMaterial> {
        if handle.0 < self.materials.len() {
            Some(self.materials[handle.0 as int])
        } else {
            None
        }
    }

    /// Whether an entity with these components fits into this world:
    /// it is not both a player and an interactable; an interactable's own
    /// material is in the store; and an interactable that has a material
    /// shows the one that its highlight flag calls for.
    pub open spec fn admits(self, c: Components) -> bool {
        &&& !(c.player is Some && c.combinable is Some)
        &&& (c.combinable is Some ==> c.combinable->0.original_material.0 < self.materials.len())
        &&& (c.combinable is Some && c.material is Some ==> c.material->0
            == Components::shown_material(c.combinable->0, self.highlight))
    }

    /// The world's invariant: every entity fits.
    pub open spec fn wf(self) -> bool {
        forall|i: int|
            0 <= i < self.entities.len() && self.entities[i] is Some ==> self.admits(
                (#[trigger] self.entities[i])->0,
            )
    }

    /// The mesh that `handle` refers to, if any.
    pub open spec fn mesh(self, handle: MeshHandle) -> Option<Mesh> {
        if handle.0 < self.meshes.len() {
            Some(self.meshes[handle.0 as int])
        } else {
            None
        }
    }

    /// This world with the content of slot `i` replaced.
    pub open spec fn with_entity(self, i: int, components: Option<Components>) -> WorldView {
        WorldView { entities: self.entities.update(i, components), ..self }
    }

    /// This world with `change` applied to the components of every entity.
    pub open spec fn map_entities(self, change: spec_fn(Components) -> Components) -> WorldView {
        WorldView {
            entities: Seq::new(
                self.entities.len(),
                |i: int|
                    match self.entities[i] {
                        Some(c) => Some(change(c)),
                        None => None,
                    },
            ),
            ..self
        }
    }

    /// The identifier that the next spawned entity gets.
    pub open spec fn next_entity(self) -> Entity {
        Entity(self.entities.len() as u64)
    }

    /// This world with one more entity.
    pub open spec fn spawned(self, components: Components) -> WorldView {
        WorldView { entities: self.entities.push(Some(components)), ..self }
    }

    /// This world without `entity`.
    pub open spec fn despawned(self, entity: Entity) -> WorldView {
        if self.alive(entity) {
            self.with_entity(entity.0 as int, None)
        } else {
            self
        }
    }

    /// The handle that the next stored material gets.
    pub open spec fn next_material(self) -> MaterialHandle {
        MaterialHandle(self.materials.len() as u64)
    }

    /// This world with one more material in its store.
    pub open spec fn with_material(self, material: StandardMaterial) -> WorldView {
        WorldView { materials: self.materials.push(material), ..self }
    }

    /// The handle that the next stored mesh gets.
    pub open spec fn next_mesh(self) -> MeshHandle {
        MeshHandle(self.meshes.len() as u64)
    }

    /// This world with one more mesh in its store.
    pub open spec fn with_mesh(self, mesh: Mesh) -> WorldView {
        WorldView { meshes: self.meshes.push(mesh), ..self }
    }
}

/// The component store together with the asset stores it refers to.
pub struct World {
    slots: Vec<Option<Components>>,
    highlight: MaterialHandle,
    materials: Vec<StandardMaterial>,
    meshes: Vec<Mesh>,
}

impl View for World {
    type V = WorldView;

    closed spec fn view(&self) -> WorldView {
        WorldView {
            entities: self.slots@,
            highlight: self.highlight,
            materials: self.materials@,
            meshes: self.meshes@,
        }
    }
}

impl World {
    /// Holds of every `World` at every moment.
    #[verifier::type_invariant]
    pub open spec fn inv(self) -> bool {
        self@.wf()
    }

    /// An empty world whose material store holds the highlight material
    /// and nothing else.
    pub fn new() -> (world: World)
        ensures
            world@.entities.len() == 0,
            world@.highlight == MaterialHandle(0),
            world@.materials == seq![StandardMaterial { base_color: crate::assets::highlight_color() }],
            world@.meshes.len() == 0,
    {
        let mut materials: Vec<StandardMaterial> = Vec::new();
        materials.push(StandardMaterial { base_color: Color::yellow() });
        World { slots: Vec::new(), highlight: MaterialHandle(0), materials, meshes: Vec::new() }
    }

    /// The number of identifiers handed out so far; every entity's
    /// identifier is below it.
    pub fn entity_count(&self) -> (count: usize)
        ensures
            count == self@.entities.len(),
    {
        self.slots.len()
    }

    /// The shared highlight material.
    pub fn highlight_material(&self) -> (handle: MaterialHandle)
        ensures
            handle == self@.highlight,
    {
        self.highlight
    }

    /// Whether `entity` exists.
    pub fn contains(&self, entity: Entity) -> (alive: bool)
        ensures
            alive == self@.alive(entity),
    {
        entity.0 < self.slots.len() as u64 && self.slots[entity.0 as usize].is_some()
    }

    /// The components of `entity`, if it exists.
    pub fn get(&self, entity: Entity) -> (found: Option<Components>)
        ensures
            found == self@.get(entity),
    {
        if entity.0 < self.slots.len() as u64 {
            self.slots[entity.0 as usize]
        } else {
            None
        }
    }

    /// Decides whether an entity with these components fits into this
    /// world.
    pub fn admits(&self, components: &Components) -> (ok: bool)
        ensures
            ok == self@.admits(*components),
    {
        match components.combinable {
            Some(combinable) => {
                let shown = if combinable.highlighted {
                    self.highlight
                } else {
                    combinable.original_material
                };
                let shows_it = match components.material {
                    Some(material) => material.0 == shown.0,
                    None => true,
                };
                components.player.is_none() && combinable.original_material.0
                    < self.materials.len() as u64 && shows_it
            },
            None => true,
        }
    }

    /// Creates an entity with the given components, unless they do not
    /// fit. The new entity gets the next free identifier.
    pub fn spawn(&mut self, components: Components) -> (id: Option<Entity>)
        ensures
            old(self)@.admits(components) ==> id == Some(old(self)@.next_entity()) && final(self)@
                == old(self)@.spawned(components),
            !old(self)@.admits(components) ==> id is None && final(self)@ == old(self)@,
    {
        if self.admits(&components) {
            Some(self.spawn_consistent(components))
        } else {
            None
        }
    }

    /// Creates an entity with components that are known to fit.
    pub(crate) fn spawn_consistent(&mut self, components: Components) -> (id: Entity)
        requires
            old(self)@.admits(components),
        ensures
            id == old(self)@.next_entity(),
            final(self)@ == old(self)@.spawned(components),
    {
        proof {
            use_type_invariant(&*self);
        }
        let id: u64 = self.slots.len() as u64;
        let mut slots: Vec<Option<Components>> = Vec::new();
        std::mem::swap(&mut slots, &mut self.slots);
        slots.push(Some(components));
        self.slots = slots;
        Entity(id)
    }

    /// Overwrites one slot.
    fn store(&mut self, index: usize, content: Option<Components>)
        requires
            index < old(self)@.entities.len(),
            content is Some ==> old(self)@.admits(content->0),
        ensures
            final(self)@ == old(self)@.with_entity(index as int, content),
    {
        proof {
            use_type_invariant(&*self);
        }
        let mut slots: Vec<Option<Components>> = Vec::new();
        std::mem::swap(&mut slots, &mut self.slots);
        slots[index] = content;
        self.slots = slots;
    }

    /// Removes `entity` with all its components. Identifiers that still
    /// refer to it resolve to nothing from now on.
    pub fn despawn(&mut self, entity: Entity) -> (removed: bool)
        ensures
            removed == old(self)@.alive(entity),
            final(self)@ == old(self)@.despawned(entity),
    {
        proof {
            use_type_invariant(&*self);
        }
        if entity.0 < self.slots.len() as u64 && self.slots[entity.0 as usize].is_some() {
            self.store(entity.0 as usize, None);
            true
        } else {
            false
        }
    }

    /// Replaces all components of `entity` at once. Nothing happens, and
    /// `false` is returned, if the entity does not exist or the new
    /// components do not fit.
    pub fn replace(&mut self, entity: Entity, components: Components) -> (done: bool)
        ensures
            done == (old(self)@.alive(entity) && old(self)@.admits(components)),
            final(self)@ == if done {
                old(self)@.with_entity(entity.0 as int, Some(components))
            } else {
                old(self)@
            },
    {
        proof {
            use_type_invariant(&*self);
        }
        if entity.0 < self.slots.len() as u64 && self.slots[entity.0 as usize].is_some()
            && self.admits(&components) {
            self.store(entity.0 as usize, Some(components));
            true
        } else {
            false
        }
    }

    /// Stores a material and returns the handle that now refers to it.
    pub fn add_material(&mut self, material: StandardMaterial) -> (handle: MaterialHandle)
        ensures
            handle == old(self)@.next_material(),
            final(self)@ == old(self)@.with_material(material),
    {
        proof {
            use_type_invariant(&*self);
        }
        let id: u64 = self.materials.len() as u64;
        let mut slots: Vec<Option<Components>> = Vec::new();
        let mut materials: Vec<StandardMaterial> = Vec::new();
        std::mem::swap(&mut slots, &mut self.slots);
        std::mem::swap(&mut materials, &mut self.materials);
        materials.push(material);
        self.materials = materials;
        self.slots = slots;
        MaterialHandle(id)
    }

    /// The material that `handle` refers to, if any.
    pub fn material(&self, handle: MaterialHandle) -> (found: Option<StandardMaterial>)
        ensures
            found == self@.material(handle),
    {
        if handle.0 < self.materials.len() as u64 {
            Some(self.materials[handle.0 as usize])
        } else {
            None
        }
    }

    /// Stores a mesh and returns the handle that now refers to it.
    pub fn add_mesh(&mut self, mesh: Mesh) -> (handle: MeshHandle)
        ensures
            handle == old(self)@.next_mesh(),
            final(self)@ == old(self)@.with_mesh(mesh),
    {
        proof {
            use_type_invariant(&*self);
        }
        let id: u64 = self.meshes.len() as u64;
        let mut meshes: Vec<Mesh> = Vec::new();
        std::mem::swap(&mut meshes, &mut self.meshes);
        meshes.push(mesh);
        self.meshes = meshes;
        MeshHandle(id)
    }

    /// The mesh that `handle` refers to, if any.
    pub fn mesh(&self, handle: MeshHandle) -> (found: Option<Mesh>)
        ensures
            found == self@.mesh(handle),
    {
        if handle.0 < self.meshes.len() as u64 {
            Some(self.meshes[handle.0 as usize])
        } else {
            None
        }
    }
}

} // verus!
