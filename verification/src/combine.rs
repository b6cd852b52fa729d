use vstd::prelude::*;
use crate::assets::{combined_color, Color, MaterialHandle, Mesh, StandardMaterial};
use crate::events::{CollisionEvent, KeyboardInput};
use crate::math::Vec3;
use crate::player::Player;
use crate::world::{Collider, Components, Entity, Physics, Transform, World, WorldView};

verus! {

/// The closed set of kinds of objects that can be picked up.
#[derive(Clone, Copy, Debug, PartialEq, Eq, Structural)]
pub enum CombinableObject {
    Box,
}

/// State of an object that a player can pick up.
#[derive(Clone, Copy, Debug, PartialEq, Eq, Structural)]
pub struct Combinable {
    /// True while a player touches the object.
    pub highlighted: bool,
    /// The material the object shows while it is not highlighted.
    pub original_material: MaterialHandle,
}

impl Combinable {
    /// The kind of object this is.
    pub open spec fn spec_category(self) -> CombinableObject {
        CombinableObject::Box
    }

    /// The kind of object this is.
    #[verifier::when_used_as_spec(spec_category)]
    pub fn category(self) -> (kind: CombinableObject)
        ensures
            kind == self.spec_category(),
    {
        CombinableObject::Box
    }
}

/// Edge length of a box.
pub const BOX_SIZE: i32 = 2000;

/// Half the edge length of a box.
pub const BOX_HALF_SIZE: i32 = 1000;

/// The components of a freshly spawned box at `position`, given the handles
/// of its material and mesh: a cube that stays in place and reports what
/// touches it.
pub open spec fn box_components(
    position: Vec3,
    material: MaterialHandle,
    mesh: crate::assets::MeshHandle,
) -> Components {
    Components {
        transform: Some(Transform { translation: position }),
        material: Some(material),
        mesh: Some(mesh),
        collider: Some(
            Collider::Cuboid { hx: BOX_HALF_SIZE, hy: BOX_HALF_SIZE, hz: BOX_HALF_SIZE },
        ),
        combinable: Some(Combinable { highlighted: false, original_material: material }),
        physics: Physics { reports_collisions: true, ..Physics::spec_new() },
        ..Components::spec_new()
    }
}

/// The world after a box has been spawned at `position`: a pink material
/// and a cube mesh are stored, then the box is created.
pub open spec fn with_box(w: WorldView, position: Vec3) -> WorldView {
    w.with_material(StandardMaterial { base_color: Color { r: 255, g: 20, b: 147 } }).with_mesh(
        Mesh::Cube { size: BOX_SIZE },
    ).spawned(box_components(position, w.next_material(), w.next_mesh()))
}

/// Spawns a box at `position`: an interactable that is not highlighted and
/// shows a material of its own. Returns the box.
pub fn spawn_box(world: &mut World, position: Vec3) -> (spawned: Entity)
    ensures
        spawned == old(world)@.next_entity(),
        final(world)@ == with_box(old(world)@, position),
{
    let material = world.add_material(StandardMaterial { base_color: Color::pink() });
    let mesh = world.add_mesh(Mesh::Cube { size: BOX_SIZE });
    let half: i32 = BOX_HALF_SIZE;
    let body = Components {
        transform: Some(Transform { translation: position }),
        material: Some(material),
        mesh: Some(mesh),
        collider: Some(Collider::Cuboid { hx: half, hy: half, hz: half }),
        combinable: Some(Combinable { highlighted: false, original_material: material }),
        physics: Physics { reports_collisions: true, ..Physics::new() },
        ..Components::new()
    };
    world.spawn_consistent(body)
}

/// The player and the interactable that a contact between `a` and `b`
/// brings together, whichever of the two comes first.
pub open spec fn begin_pair(w: WorldView, a: Entity, b: Entity) -> Option<(Entity, Entity)> {
    if w.is_player(a) && w.is_interactable(b) {
        Some((a, b))
    } else if w.is_player(b) && w.is_interactable(a) {
        Some((b, a))
    } else {
        None
    }
}

/// The interactable that the end of a contact between `a` and `b` concerns,
/// with the player on the other side where there still is one. The other
/// side need not resolve any more: an interactable whose partner is gone is
/// taken alone. A contact with an existing entity that is no player
/// concerns nobody.
pub open spec fn end_pair(w: WorldView, a: Entity, b: Entity) -> Option<(Option<Entity>, Entity)> {
    if w.is_player(a) && w.is_interactable(b) {
        Some((Some(a), b))
    } else if w.is_player(b) && w.is_interactable(a) {
        Some((Some(b), a))
    } else if !w.alive(a) && w.is_interactable(b) {
        Some((None, b))
    } else if !w.alive(b) && w.is_interactable(a) {
        Some((None, a))
    } else {
        None
    }
}

/// An interactable's components once it is highlighted: flag and material
/// change together.
pub open spec fn highlighted(c: Components, highlight: MaterialHandle) -> Components {
    Components {
        material: Some(highlight),
        combinable: Some(
            Combinable { highlighted: true, original_material: c.combinable->0.original_material },
        ),
        ..c
    }
}

/// An interactable's components once its highlight is taken back: flag and
/// material change together.
pub open spec fn unhighlighted(c: Components) -> Components {
    Components {
        material: Some(c.combinable->0.original_material),
        combinable: Some(
            Combinable { highlighted: false, original_material: c.combinable->0.original_material },
        ),
        ..c
    }
}

/// An interactable that is highlighted already is left as it is by another
/// highlight: its flag is set and it shows the highlight material.
pub proof fn lemma_highlight_is_idempotent(w: WorldView, c: Components)
    requires
        w.admits(c),
        c.combinable is Some,
        c.material is Some,
        c.combinable->0.highlighted,
    ensures
        highlighted(c, w.highlight) == c,
{
}

/// A player's components with another candidate.
pub open spec fn with_candidate(c: Components, candidate: Option<Entity>) -> Components {
    Components {
        player: Some(
            Player { entity_to_combine: candidate, combined_with: c.player->0.combined_with },
        ),
        ..c
    }
}

/// The world after `a` and `b` have started to touch. Where they are a
/// player and an interactable, the interactable is highlighted and becomes
/// the player's candidate; otherwise nothing changes.
pub open spec fn after_begin(w: WorldView, a: Entity, b: Entity) -> WorldView {
    match begin_pair(w, a, b) {
        Some((p, i)) => {
            let lit = w.with_entity(i.0 as int, Some(highlighted(w.get(i)->0, w.highlight)));
            lit.with_entity(p.0 as int, Some(with_candidate(w.get(p)->0, Some(i))))
        },
        None => w,
    }
}

/// The world after `a` and `b` have stopped touching. Where one of them is
/// an interactable and the other a player, or gone, the interactable loses
/// its highlight; the player, if there is one and this interactable is its
/// candidate, loses its candidate.
pub open spec fn after_end(w: WorldView, a: Entity, b: Entity) -> WorldView {
    match end_pair(w, a, b) {
        Some((p, i)) => {
            let reverted = w.with_entity(i.0 as int, Some(unhighlighted(w.get(i)->0)));
            match p {
                Some(q) => if w.get(q)->0.player->0.entity_to_combine == Some(i) {
                    reverted.with_entity(q.0 as int, Some(with_candidate(w.get(q)->0, None)))
                } else {
                    reverted
                },
                None => reverted,
            }
        },
        None => w,
    }
}

/// The world after one collision event has been handled by the highlight
/// and candidate tracker.
pub open spec fn after_contact(w: WorldView, event: CollisionEvent) -> WorldView {
    match event {
        CollisionEvent::Started(a, b) => after_begin(w, a, b),
        CollisionEvent::Stopped(a, b) => after_end(w, a, b),
    }
}

/// The world after the highlight and candidate tracker has handled
/// `events` one by one, in their order.
pub open spec fn after_contacts(w: WorldView, events: Seq<CollisionEvent>) -> WorldView
    decreases events.len(),
{
    if events.len() == 0 {
        w
    } else {
        after_contact(after_contacts(w, events.drop_last()), events.last())
    }
}

fn is_player(world: &World, entity: Entity) -> (yes: bool)
    ensures
        yes == world@.is_player(entity),
{
    match world.get(entity) {
        Some(c) => c.player.is_some(),
        None => false,
    }
}

fn is_interactable(world: &World, entity: Entity) -> (yes: bool)
    ensures
        yes == world@.is_interactable(entity),
{
    match world.get(entity) {
        Some(c) => c.combinable.is_some() && c.material.is_some(),
        None => false,
    }
}

/// Handles the start of a contact between `a` and `b`.
fn begin_contact(world: &mut World, a: Entity, b: Entity)
    ensures
        final(world)@ == after_begin(old(world)@, a, b),
{
    proof {
        use_type_invariant(&*world);
    }
    let pair = if is_player(world, a) && is_interactable(world, b) {
        Some((a, b))
    } else if is_player(world, b) && is_interactable(world, a) {
        Some((b, a))
    } else {
        None
    };
    if let Some((p, i)) = pair {
        let target = world.get(i).unwrap();
        let toucher = world.get(p).unwrap();
        let lit = Components {
            material: Some(world.highlight_material()),
            combinable: Some(
                Combinable {
                    highlighted: true,
                    original_material: target.combinable.unwrap().original_material,
                },
            ),
            ..target
        };
        world.replace(i, lit);
        let chosen = Components {
            player: Some(
                Player {
                    entity_to_combine: Some(i),
                    combined_with: toucher.player.unwrap().combined_with,
                },
            ),
            ..toucher
        };
        world.replace(p, chosen);
    }
}

/// Handles the end of a contact between `a` and `b`.
fn end_contact(world: &mut World, a: Entity, b: Entity)
    ensures
        final(world)@ == after_end(old(world)@, a, b),
{
    proof {
        use_type_invariant(&*world);
    }
    let pair = if is_player(world, a) && is_interactable(world, b) {
        Some((Some(a), b))
    } else if is_player(world, b) && is_interactable(world, a) {
        Some((Some(b), a))
    } else if !world.contains(a) && is_interactable(world, b) {
        Some((None, b))
    } else if !world.contains(b) && is_interactable(world, a) {
        Some((None, a))
    } else {
        None
    };
    if let Some((p, i)) = pair {
        let target = world.get(i).unwrap();
        let original = target.combinable.unwrap().original_material;
        let reverted = Components {
            material: Some(original),
            combinable: Some(Combinable { highlighted: false, original_material: original }),
            ..target
        };
        if let Some(p) = p {
            let toucher = world.get(p).unwrap();
            let state = toucher.player.unwrap();
            let points_here = match state.entity_to_combine {
                Some(candidate) => candidate.0 == i.0,
                None => false,
            };
            world.replace(i, reverted);
            if points_here {
                let freed = Components {
                    player: Some(
                        Player { entity_to_combine: None, combined_with: state.combined_with },
                    ),
                    ..toucher
                };
                world.replace(p, freed);
            }
        } else {
            world.replace(i, reverted);
        }
    }
}

/// The highlight and candidate tracker: handles the frame's collision
/// events one by one, in their order.
///
/// When a player and an interactable start to touch, the interactable is
/// highlighted and becomes the player's candidate. When their contact
/// ends, the interactable gets its own material back, and the player loses
/// its candidate if it was this one; the interactable gets its material
/// back even if the player is gone by then. All other events are passed
/// over.
pub fn highlight_combinable_entity(world: &mut World, events: &[CollisionEvent])
    ensures
        final(world)@ == after_contacts(old(world)@, events@),
{
    let mut k: usize = 0;
    while k < events.len()
        invariant
            k <= events.len(),
            world@ == after_contacts(old(world)@, events@.take(k as int)),
        decreases events.len() - k,
    {
        let event = events[k];
        match event {
            CollisionEvent::Started(a, b) => begin_contact(world, a, b),
            CollisionEvent::Stopped(a, b) => end_contact(world, a, b),
        }
        proof {
            assert(events@.take(k + 1).drop_last() == events@.take(k as int));
            assert(events@.take(k + 1).last() == events@[k as int]);
        }
        k = k + 1;
    }
    proof {
        assert(events@.take(events@.len() as int) == events@);
    }
}

/// Whether `event` is about the interactable `i`: it is the start of a
/// contact between `i` and a player, or the end of a contact between `i`
/// and a player or an entity that is gone.
pub open spec fn concerns(w: WorldView, event: CollisionEvent, i: Entity) -> bool {
    match event {
        CollisionEvent::Started(a, b) => begin_pair(w, a, b) matches Some(pair) && pair.1 == i,
        CollisionEvent::Stopped(a, b) => end_pair(w, a, b) matches Some(pair) && pair.1 == i,
    }
}

/// The last of `events` that is about the interactable `i`, if any is.
pub open spec fn last_concerning(w: WorldView, events: Seq<CollisionEvent>, i: Entity) -> Option<
    CollisionEvent,
>
    decreases events.len(),
{
    if events.len() == 0 {
        None
    } else if concerns(w, events.last(), i) {
        Some(events.last())
    } else {
        last_concerning(w, events.drop_last(), i)
    }
}

/// Whether two worlds have the same entities in the same roles: what the
/// tracker looks at to pair up the entities of an event.
pub open spec fn same_roles(a: WorldView, b: WorldView) -> bool {
    &&& a.entities.len() == b.entities.len()
    &&& a.highlight == b.highlight
    &&& a.materials == b.materials
    &&& a.meshes == b.meshes
    &&& forall|e: Entity| #[trigger] a.alive(e) == b.alive(e)
    &&& forall|e: Entity| #[trigger] a.is_player(e) == b.is_player(e)
    &&& forall|e: Entity| #[trigger] a.is_interactable(e) == b.is_interactable(e)
    &&& forall|e: Entity| #[trigger]
        a.is_interactable(e) ==> a.get(e)->0.combinable->0.original_material == b.get(
            e,
        )->0.combinable->0.original_material
}

/// One event of the tracker keeps the world well formed and every entity
/// in its role.
pub proof fn lemma_contact_keeps_wf(w: WorldView, event: CollisionEvent)
    requires
        w.wf(),
    ensures
        after_contact(w, event).wf(),
        same_roles(w, after_contact(w, event)),
{
    let after = after_contact(w, event);
    match event {
        CollisionEvent::Started(a, b) => {
            if let Some((p, t)) = begin_pair(w, a, b) {
                assert(w.admits(w.entities[p.0 as int]->0));
                assert(w.admits(w.entities[t.0 as int]->0));
                assert(p != t);
                assert forall|j: int| 0 <= j < after.entities.len() && after.entities[j] is Some implies after.admits(
                    (#[trigger] after.entities[j])->0,
                ) by {
                    assert(w.admits(w.entities[j]->0));
                }
            }
        },
        CollisionEvent::Stopped(a, b) => {
            if let Some((p, t)) = end_pair(w, a, b) {
                assert(w.admits(w.entities[t.0 as int]->0));
                if let Some(q) = p {
                    assert(w.admits(w.entities[q.0 as int]->0));
                    assert(q != t);
                }
                assert forall|j: int| 0 <= j < after.entities.len() && after.entities[j] is Some implies after.admits(
                    (#[trigger] after.entities[j])->0,
                ) by {
                    assert(w.admits(w.entities[j]->0));
                }
            }
        },
    }
}

/// One event of the tracker decides the highlight of exactly the
/// interactable it is about: highlighted after a start, not highlighted
/// after an end.
pub proof fn lemma_contact_sets_highlight(w: WorldView, event: CollisionEvent, i: Entity)
    requires
        w.wf(),
        w.is_interactable(i),
    ensures
        after_contact(w, event).get(i)->0.combinable->0.highlighted == if concerns(w, event, i) {
            event is Started
        } else {
            w.get(i)->0.combinable->0.highlighted
        },
{
    match event {
        CollisionEvent::Started(a, b) => {
            if let Some((p, t)) = begin_pair(w, a, b) {
                assert(w.admits(w.entities[p.0 as int]->0));
                assert(w.admits(w.entities[t.0 as int]->0));
            }
            assert(w.admits(w.entities[i.0 as int]->0));
        },
        CollisionEvent::Stopped(a, b) => {
            if let Some((p, t)) = end_pair(w, a, b) {
                assert(w.admits(w.entities[t.0 as int]->0));
                if let Some(q) = p {
                    assert(w.admits(w.entities[q.0 as int]->0));
                }
            }
            assert(w.admits(w.entities[i.0 as int]->0));
        },
    }
}

/// Highlight symmetry. After the tracker has gone through any sequence of
/// events, an interactable is highlighted if and only if the last event
/// about it was the start of a contact with a player; where no event was
/// about it, it is as it was. The world stays well formed throughout, so
/// the interactable shows the highlight material exactly while it is
/// highlighted, and its own material otherwise.
pub proof fn lemma_highlight_follows_last_event(w: WorldView, events: Seq<CollisionEvent>, i: Entity)
    requires
        w.wf(),
        w.is_interactable(i),
    ensures
        after_contacts(w, events).wf(),
        same_roles(w, after_contacts(w, events)),
        after_contacts(w, events).is_interactable(i),
        after_contacts(w, events).get(i)->0.combinable->0.highlighted == match last_concerning(
            w,
            events,
            i,
        ) {
            Some(event) => event is Started,
            None => w.get(i)->0.combinable->0.highlighted,
        },
        after_contacts(w, events).get(i)->0.material->0 == Components::shown_material(
            after_contacts(w, events).get(i)->0.combinable->0,
            w.highlight,
        ),
    decreases events.len(),
{
    if events.len() > 0 {
        let before = after_contacts(w, events.drop_last());
        lemma_highlight_follows_last_event(w, events.drop_last(), i);
        lemma_contact_keeps_wf(before, events.last());
        lemma_contact_sets_highlight(before, events.last(), i);
        assert(concerns(before, events.last(), i) == concerns(w, events.last(), i));
    }
    let after = after_contacts(w, events);
    assert(after.admits(after.entities[i.0 as int]->0));
}

/// Whether a player has everything that a combine overwrites: a
/// transform, a material, a mesh and a collider.
pub open spec fn can_absorb(c: Components) -> bool {
    &&& c.player is Some
    &&& c.transform is Some
    &&& c.material is Some
    &&& c.mesh is Some
    &&& c.collider is Some
}

/// Whether `entity` can be absorbed: it exists, it is an interactable and
/// no player, and it has a transform, a material, a mesh and a collider.
pub open spec fn can_be_absorbed(w: WorldView, entity: Entity) -> bool {
    &&& w.get(entity) matches Some(c)
    &&& c.combinable is Some
    &&& c.player is None
    &&& c.transform is Some
    &&& c.material is Some
    &&& c.mesh is Some
    &&& c.collider is Some
}

/// The candidate that the player in slot `p` absorbs when confirm is
/// pressed, if there is such a player and its candidate resolves.
pub open spec fn absorption(w: WorldView, p: int) -> Option<Entity> {
    if 0 <= p < w.entities.len() && w.entities[p] is Some && can_absorb(w.entities[p]->0)
        && w.entities[p]->0.player->0.entity_to_combine is Some && can_be_absorbed(
        w,
        w.entities[p]->0.player->0.entity_to_combine->0,
    ) {
        w.entities[p]->0.player->0.entity_to_combine
    } else {
        None
    }
}

/// A player's components after it has absorbed `candidate`: no candidate
/// any more, the candidate's kind as its tag, the candidate's transform,
/// mesh and collider, and `material` as its new material.
pub open spec fn absorbing(player: Components, candidate: Components, material: MaterialHandle) -> Components {
    Components {
        player: Some(
            Player {
                entity_to_combine: None,
                combined_with: Some(candidate.combinable->0.spec_category()),
            },
        ),
        material: Some(material),
        mesh: candidate.mesh,
        transform: candidate.transform,
        collider: candidate.collider,
        ..player
    }
}

/// The world after the player in slot `p` has had its turn at a confirm.
/// If it absorbs its candidate, a new material is stored whose colour is
/// derived from the candidate's own material, the player takes over the
/// candidate's transform, mesh and collider, and the candidate is gone.
pub open spec fn after_absorb(w: WorldView, p: int) -> WorldView {
    match absorption(w, p) {
        Some(c) => {
            let player = w.entities[p]->0;
            let candidate = w.get(c)->0;
            let source = w.material(candidate.combinable->0.original_material)->0;
            w.with_material(
                StandardMaterial { base_color: combined_color(source.base_color) },
            ).with_entity(p, Some(absorbing(player, candidate, w.next_material()))).with_entity(
                c.0 as int,
                None,
            )
        },
        None => w,
    }
}

/// The world after the players in the first `n` slots have had their turn,
/// in the order of their identifiers.
pub open spec fn after_absorbs(w: WorldView, n: int) -> WorldView
    decreases n,
{
    if n <= 0 {
        w
    } else {
        after_absorb(after_absorbs(w, n - 1), n - 1)
    }
}

/// The entities that the players in the first `n` slots absorb, in the
/// order in which they go.
pub open spec fn absorbed_by(w: WorldView, n: int) -> Seq<Entity>
    decreases n,
{
    if n <= 0 {
        Seq::empty()
    } else {
        match absorption(after_absorbs(w, n - 1), n - 1) {
            Some(c) => absorbed_by(w, n - 1).push(c),
            None => absorbed_by(w, n - 1),
        }
    }
}

/// The world after the combine executor has run: untouched unless confirm
/// went down in this frame.
pub open spec fn after_combine(w: WorldView, confirm_just_pressed: bool) -> WorldView {
    if confirm_just_pressed {
        after_absorbs(w, w.entities.len() as int)
    } else {
        w
    }
}

/// The entities that the combine executor removes.
pub open spec fn combined(w: WorldView, confirm_just_pressed: bool) -> Seq<Entity> {
    if confirm_just_pressed {
        absorbed_by(w, w.entities.len() as int)
    } else {
        Seq::empty()
    }
}

/// The candidate of the player in slot `p`, where that player absorbs it.
fn find_absorption(world: &World, p: usize) -> (found: Option<Entity>)
    requires
        p < world@.entities.len(),
    ensures
        found == absorption(world@, p as int),
{
    let player = match world.get(Entity(p as u64)) {
        Some(c) => c,
        None => { return None; },
    };
    let state = match player.player {
        Some(state) => state,
        None => { return None; },
    };
    if player.transform.is_none() || player.material.is_none() || player.mesh.is_none()
        || player.collider.is_none() {
        return None;
    }
    let c = match state.entity_to_combine {
        Some(c) => c,
        None => { return None; },
    };
    let candidate = match world.get(c) {
        Some(candidate) => candidate,
        None => { return None; },
    };
    if candidate.combinable.is_none() || candidate.player.is_some()
        || candidate.transform.is_none() || candidate.material.is_none()
        || candidate.mesh.is_none() || candidate.collider.is_none() {
        return None;
    }
    Some(c)
}

/// The combine executor. Does nothing unless the confirm key went down in
/// this frame. Then every player gets its turn, in the order of the
/// identifiers: a player with a transform, a material, a mesh and a
/// collider whose candidate can be absorbed loses its candidate, is tagged
/// with the candidate's kind, gets a new material derived from the
/// candidate's own one, and takes over the candidate's transform, mesh and
/// collider; the candidate is despawned. A player whose candidate does not
/// resolve is left as it is. Returns the despawned entities in order.
pub fn combine_player(world: &mut World, keyboard_input: &KeyboardInput) -> (removed: Vec<Entity>)
    ensures
        final(world)@ == after_combine(old(world)@, keyboard_input.confirm_just_pressed),
        removed@ == combined(old(world)@, keyboard_input.confirm_just_pressed),
{
    let mut removed: Vec<Entity> = Vec::new();
    if !keyboard_input.confirm_just_pressed {
        return removed;
    }
    let n: usize = world.entity_count();
    let mut p: usize = 0;
    while p < n
        invariant
            p <= n,
            n == old(world)@.entities.len(),
            world@.entities.len() == n,
            world@ == after_absorbs(old(world)@, p as int),
            removed@ == absorbed_by(old(world)@, p as int),
        decreases n - p,
    {
        proof {
            use_type_invariant(&*world);
        }
        if let Some(c) = find_absorption(world, p) {
            let player = world.get(Entity(p as u64)).unwrap();
            let candidate = world.get(c).unwrap();
            let own = candidate.combinable.unwrap();
            let source = world.material(own.original_material).unwrap();
            let material = world.add_material(
                StandardMaterial { base_color: source.base_color.combined() },
            );
            let merged = Components {
                player: Some(
                    Player { entity_to_combine: None, combined_with: Some(own.category()) },
                ),
                material: Some(material),
                mesh: candidate.mesh,
                transform: candidate.transform,
                collider: candidate.collider,
                ..player
            };
            world.replace(Entity(p as u64), merged);
            world.despawn(c);
            removed.push(c);
        }
        p = p + 1;
    }
    removed
}

} // verus!
